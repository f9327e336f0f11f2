[package]
name = "joke_stream"
version = "0.1.0"
edition = "2021"
publish = false

[dependencies]
bincode = "2"
clap = { version = "4", features = ["derive"] }
console_error_panic_hook = "0.1"
console_log = "1"
devserver_lib = "*"
futures = "0.3"
gloo-timers = { version = "0.3", features = ["futures"] }
gloo-worker = { version = "0.5", features = ["futures"] }
http = "1"
prost = "0.13"
rand = "0.9"
serde = { version = "1", features = ["derive"] }
tokio = { version = "1", features = ["macros", "rt-multi-thread", "sync", "time"] }
tokio-stream = "0.1"
tonic = "0.13"
tonic-web = "0.13"
tonic-web-wasm-client = "0.7"
tower-http = { version = "0.6", features = ["cors"] }
wasm-bindgen = "0.2"
wasm-bindgen-futures = "0.4"
web-sys = { version = "0.3", features = ["Document", "Element", "Window", "console"] }
