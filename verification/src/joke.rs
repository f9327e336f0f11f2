//! A joke, and the messages that the page and its worker exchange.

use vstd::prelude::*;

verus! {

/// What a joke is: the wire number of its kind and its lines, in order.
pub struct JokeView {
    pub joke_type: i32,
    pub lines: Seq<Seq<char>>,
}

/// One joke as it is stored, streamed and shown.
#[derive(Debug, PartialEq, Eq)]
pub struct Joke {
    pub joke_type: i32,
    pub lines: Vec<String>,
}

impl View for Joke {
    type V = JokeView;

    open spec fn view(&self) -> JokeView {
        JokeView { joke_type: self.joke_type, lines: self.lines.deep_view() }
    }
}

impl Clone for Joke {
    /// The copy is the same joke.
    fn clone(&self) -> (copy: Self)
        ensures
            copy@ == self@,
    {
        let mut lines: Vec<String> = Vec::new();
        let mut i: usize = 0;
        while i < self.lines.len()
            invariant
                i <= self.lines.len(),
                lines@.len() == i,
                forall|k: int| 0 <= k < i ==> lines@[k]@ == self.lines@[k]@,
            decreases self.lines.len() - i,
        {
            lines.push(self.lines[i].clone());
            i += 1;
        }
        let copy = Joke { joke_type: self.joke_type, lines };
        assert(copy.lines.deep_view() =~= self.lines.deep_view());
        copy
    }
}

/// The views of a list of jokes, in order.
pub open spec fn jokes_view(jokes: Seq<Joke>) -> Seq<JokeView> {
    Seq::new(jokes.len(), |i: int| jokes[i]@)
}

/// What the page sends to its worker, once: the kind of joke it wants, as a
/// wire number.
#[derive(Clone, Copy, Debug, PartialEq, Eq, Structural)]
pub struct Start {
    pub joke_type: i32,
}

/// What a message from the worker says.
pub enum MessageView {
    Connected,
    Disconnected,
    Joke(Seq<u8>),
}

/// What the worker sends to the page: the state of the connection, or a joke
/// packed into bytes.
#[derive(Debug, PartialEq, Eq)]
pub enum Message {
    Connected,
    Disconnected,
    Joke(Vec<u8>),
}

impl View for Message {
    type V = MessageView;

    open spec fn view(&self) -> MessageView {
        match self {
            Message::Connected => MessageView::Connected,
            Message::Disconnected => MessageView::Disconnected,
            Message::Joke(bytes) => MessageView::Joke(bytes@),
        }
    }
}

impl Clone for Message {
    /// The copy says the same.
    fn clone(&self) -> (copy: Self)
        ensures
            copy@ == self@,
    {
        match self {
            Message::Connected => Message::Connected,
            Message::Disconnected => Message::Disconnected,
            Message::Joke(bytes) => {
                let copy = bytes.clone();
                assert(copy@ =~= bytes@);
                Message::Joke(copy)
            },
        }
    }
}

} // verus!
