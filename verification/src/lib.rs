//! Jokes streamed to browsers: the rules of the service, verified.
//!
//! The crate holds what the joke server and its browser client decide and
//! compute. The programs around it own the sockets, the timers and the page;
//! they report what happened and carry out what the library answers.
//!
//! * [`category`]: the kinds of joke and their numbers on the wire.
//! * [`joke`]: a joke, and the messages between the page and its worker.
//! * [`store`]: the joke files and the collection loaded from them.
//! * [`session`]: one client's stream on the server.
//! * [`codec`]: the bytes in which the worker hands a joke to the page.
//! * [`worker`]: the worker that keeps the stream alive.
//! * [`render`]: what the page shows for each message.

pub mod category;
pub mod joke;
pub mod text;
pub mod store;
pub mod session;
pub mod codec;
pub mod worker;
pub mod render;
