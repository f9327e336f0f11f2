//! One client's stream on the server.
//!
//! A connection holds the collection of jokes that all sessions share. A
//! request opens a session, which then decides step by step what its task
//! does: send a joke, pause, or stop. The task reports what happened (the
//! state of the output channel, the outcome of a send) and carries out the
//! answer. Once the channel is reported closed the session stops for good,
//! so a client that went away leaves no task behind.

use std::sync::Arc;

use rand::rngs::StdRng;
use rand::seq::IndexedRandom;
use rand::Rng;
use vstd::prelude::*;

use crate::category::JokeType;
use crate::joke::{jokes_view, Joke, JokeView};
use crate::store::{is_joke, Jokes, JokesView};

verus! {

/// The generator from which a session draws.
#[verifier::external_type_specification]
#[verifier::external_body]
pub struct ExStdRng(StdRng);

/// The seconds a session pauses after each joke.
pub const PACING_SECS: u64 = 10;

/// Tosses a coin with `Rng::random`. Either side may come up.
#[verifier::external_body]
fn toss(rng: &mut StdRng) -> (heads: bool) {
    rng.random::<bool>()
}

/// Draws from a list with `IndexedRandom::choose`: one of the jokes of the
/// list, or nothing where the list is empty.
#[verifier::external_body]
fn draw<'a>(list: &'a Vec<Joke>, rng: &mut StdRng) -> (drawn: Option<&'a Joke>)
    ensures
        drawn is Some <==> list@.len() > 0,
        drawn matches Some(joke) ==> exists|i: int| 0 <= i < list@.len() && list@[i] == *joke,
{
    list.choose(rng)
}

/// Makes another handle to the shared collection with `Arc::clone`.
#[verifier::external_body]
fn share(jokes: &Arc<Jokes>) -> (shared: Arc<Jokes>)
    ensures
        shared == *jokes,
{
    Arc::clone(jokes)
}

/// Draws the next joke for a request of `kind` after the toss `heads`: one
/// of the list of that kind, or, for `JokeType::Any`, of the limericks
/// where `heads` holds and of the knock-knock jokes where it does not.
pub fn select_from<'a>(jokes: &'a Jokes, kind: JokeType, heads: bool, rng: &mut StdRng) -> (joke:
    &'a Joke)
    ensures
        jokes@.well_formed(),
        jokes@.list_for(kind, heads).contains(joke@),
        jokes@.offers(kind, joke@),
        kind.is_concrete() ==> is_joke(kind.code(), joke@),
{
    let list = jokes.list_for(kind, heads);
    let drawn = draw(list, rng);
    let joke = drawn.unwrap();
    proof {
        let i = choose|i: int| 0 <= i < list@.len() && list@[i] == *joke;
        assert(jokes_view(list@)[i] == joke@);
        if kind.is_concrete() {
            lemma_offer_is_of_kind(jokes@, kind, joke@);
        }
    }
    joke
}

/// Draws the next joke for a request of `kind`: from the list of that kind,
/// or, for `JokeType::Any`, from the list that a coin toss picks. The coin
/// is tossed for `JokeType::Any` only.
pub fn select<'a>(jokes: &'a Jokes, kind: JokeType, rng: &mut StdRng) -> (joke: &'a Joke)
    ensures
        jokes@.well_formed(),
        jokes@.offers(kind, joke@),
        kind.is_concrete() ==> is_joke(kind.code(), joke@),
{
    let heads: bool = match kind {
        JokeType::Any => toss(rng),
        _ => true,
    };
    select_from(jokes, kind, heads, rng)
}

/// A joke offered for a limerick request is one of the limericks, and a joke
/// offered for a knock-knock request is one of the knock-knock jokes; either
/// way it is a joke of the kind that was asked for.
pub proof fn lemma_offer_is_of_kind(jokes: JokesView, kind: JokeType, joke: JokeView)
    requires
        jokes.well_formed(),
        kind.is_concrete(),
        jokes.offers(kind, joke),
    ensures
        is_joke(kind.code(), joke),
        kind == JokeType::Limerick ==> jokes.limericks.contains(joke),
        kind == JokeType::KnockKnock ==> jokes.knock_knock.contains(joke),
{
    let list = jokes.list_for(kind, true);
    let i = choose|i: int| 0 <= i < list.len() && list[i] == joke;
    assert(is_joke(kind.code(), list[i]));
}

/// A joke offered for any request is a limerick or a knock-knock joke of the
/// collection.
pub proof fn lemma_offer_is_stocked(jokes: JokesView, kind: JokeType, joke: JokeView)
    requires
        jokes.offers(kind, joke),
    ensures
        jokes.limericks.contains(joke) || jokes.knock_knock.contains(joke),
{
}

/// Where a session stands.
#[derive(Clone, Copy, Debug, PartialEq, Eq, Structural)]
pub enum SessionState {
    /// The session waits to hear whether the channel is still open.
    Ready,
    /// The session has handed out a joke and waits to hear whether it was
    /// taken.
    Sending,
    /// The session is over.
    Closed,
}

/// What a session's task reports.
#[derive(Clone, Copy, Debug, PartialEq, Eq, Structural)]
pub enum SessionEvent {
    /// The session has begun or a pause is over; `closed` says whether the
    /// output channel is closed now.
    Tick { closed: bool },
    /// The channel took the joke.
    Delivered,
    /// The channel did not take the joke.
    Refused,
}

/// What a session's task is to do next, apart from which joke is sent.
#[derive(Clone, Copy, Debug, PartialEq, Eq, Structural)]
pub enum SessionMove {
    /// Send a joke, then report `Delivered` or `Refused`.
    Send,
    /// Sleep for so many seconds, then report a `Tick`.
    Pause(u64),
    /// End the task.
    Stop,
}

/// What a session's task is to do next.
#[derive(Debug, PartialEq, Eq)]
pub enum SessionAction {
    /// Send this joke, then report `Delivered` or `Refused`.
    Send(Joke),
    /// Sleep for so many seconds, then report a `Tick`.
    Pause(u64),
    /// End the task.
    Stop,
}

/// What an action says.
pub enum SessionActionView {
    Send(JokeView),
    Pause(u64),
    Stop,
}

impl View for SessionAction {
    type V = SessionActionView;

    open spec fn view(&self) -> SessionActionView {
        match self {
            SessionAction::Send(joke) => SessionActionView::Send(joke@),
            SessionAction::Pause(secs) => SessionActionView::Pause(*secs),
            SessionAction::Stop => SessionActionView::Stop,
        }
    }
}

impl SessionAction {
    /// What is to be done, whichever joke is sent.
    pub open spec fn kind(self) -> SessionMove {
        match self {
            SessionAction::Send(_) => SessionMove::Send,
            SessionAction::Pause(secs) => SessionMove::Pause(secs),
            SessionAction::Stop => SessionMove::Stop,
        }
    }
}

/// Whether `event` tells that the client is gone.
pub open spec fn reports_closure(event: SessionEvent) -> bool {
    event == (SessionEvent::Tick { closed: true }) || event == SessionEvent::Refused
}

/// The state of a session after `event` reached it in `state`. An event
/// that the state does not wait for ends the session.
pub open spec fn session_next(state: SessionState, event: SessionEvent) -> SessionState {
    match (state, event) {
        (SessionState::Ready, SessionEvent::Tick { closed: false }) => SessionState::Sending,
        (SessionState::Sending, SessionEvent::Delivered) => SessionState::Ready,
        _ => SessionState::Closed,
    }
}

/// What the task does after `event` reached its session in `state`.
pub open spec fn session_move(state: SessionState, event: SessionEvent) -> SessionMove {
    match (state, event) {
        (SessionState::Ready, SessionEvent::Tick { closed: false }) => SessionMove::Send,
        (SessionState::Sending, SessionEvent::Delivered) => SessionMove::Pause(PACING_SECS),
        _ => SessionMove::Stop,
    }
}

/// The state of a session that was in `state` before `events` reached it
/// one after the other.
pub open spec fn session_after(state: SessionState, events: Seq<SessionEvent>) -> SessionState
    decreases events.len(),
{
    if events.len() == 0 {
        state
    } else {
        session_next(session_after(state, events.drop_last()), events.last())
    }
}

/// What the task of a session that was in `state` does in answer to each of
/// `events`.
pub open spec fn session_moves(state: SessionState, events: Seq<SessionEvent>) -> Seq<SessionMove> {
    Seq::new(
        events.len(),
        |i: int| session_move(session_after(state, events.take(i)), events[i]),
    )
}

/// What a session is: the collection it draws from, the kind that was asked
/// for, and where it stands.
pub struct SessionView {
    pub jokes: JokesView,
    pub joke_type: JokeType,
    pub state: SessionState,
}

/// The stream of one client.
pub struct Session {
    jokes: Arc<Jokes>,
    joke_type: JokeType,
    state: SessionState,
}

impl View for Session {
    type V = SessionView;

    closed spec fn view(&self) -> SessionView {
        SessionView { jokes: self.jokes@, joke_type: self.joke_type, state: self.state }
    }
}

impl Session {
    /// Where the session stands.
    pub fn state(&self) -> (state: SessionState)
        ensures
            state == self@.state,
    {
        self.state
    }

    /// The kind of joke that the client asked for.
    pub fn joke_type(&self) -> (kind: JokeType)
        ensures
            kind == self@.joke_type,
    {
        self.joke_type
    }

    /// Takes what the task reports and answers what it is to do next. A joke
    /// to send is drawn from the collection as `select` draws it.
    pub fn step(&mut self, event: SessionEvent, rng: &mut StdRng) -> (action: SessionAction)
        ensures
            final(self)@.jokes == old(self)@.jokes,
            final(self)@.joke_type == old(self)@.joke_type,
            final(self)@.state == session_next(old(self)@.state, event),
            action.kind() == session_move(old(self)@.state, event),
            action matches SessionAction::Send(joke) ==> {
                &&& old(self)@.jokes.offers(old(self)@.joke_type, joke@)
                &&& old(self)@.joke_type.is_concrete() ==> is_joke(
                    old(self)@.joke_type.code(),
                    joke@,
                )
            },
    {
        match (self.state, event) {
            (SessionState::Ready, SessionEvent::Tick { closed: false }) => {
                let joke = select(&self.jokes, self.joke_type, rng).clone();
                self.state = SessionState::Sending;
                SessionAction::Send(joke)
            },
            (SessionState::Sending, SessionEvent::Delivered) => {
                self.state = SessionState::Ready;
                SessionAction::Pause(PACING_SECS)
            },
            _ => {
                self.state = SessionState::Closed;
                SessionAction::Stop
            },
        }
    }
}

/// Why a request was turned down.
#[derive(Clone, Copy, Debug, PartialEq, Eq, Structural)]
pub enum SessionError {
    /// The request names no kind of joke.
    InvalidArgument,
}

/// The service that answers requests for jokes.
pub struct Connection {
    jokes: Arc<Jokes>,
}

impl View for Connection {
    type V = JokesView;

    closed spec fn view(&self) -> JokesView {
        self.jokes@
    }
}

impl Connection {
    /// A service that streams the jokes of `jokes`.
    pub fn new(jokes: Jokes) -> (connection: Self)
        ensures
            connection@ == jokes@,
    {
        Connection { jokes: Arc::new(jokes) }
    }

    /// The collection that the sessions share.
    pub fn store(&self) -> (jokes: &Jokes)
        ensures
            jokes@ == self@,
    {
        &self.jokes
    }

    /// Answers a request for jokes of the kind with the wire number
    /// `joke_type`. A number that stands for no kind is turned down before
    /// anything is set up; any other opens a session, ready for its first
    /// report.
    pub fn jokes(&self, joke_type: i32) -> (opened: Result<Session, SessionError>)
        ensures
            match opened {
                Ok(session) => {
                    &&& JokeType::of_code(joke_type) == Some(session@.joke_type)
                    &&& session@.jokes == self@
                    &&& session@.state == SessionState::Ready
                },
                Err(error) => {
                    &&& JokeType::of_code(joke_type) is None
                    &&& error == SessionError::InvalidArgument
                },
            },
    {
        match JokeType::from_i32(joke_type) {
            Some(kind) => Ok(
                Session { jokes: share(&self.jokes), joke_type: kind, state: SessionState::Ready },
            ),
            None => Err(SessionError::InvalidArgument),
        }
    }
}

/// A session sends only in answer to the report that the channel is open,
/// and pauses only after a delivery, for `PACING_SECS` seconds. So a channel
/// that closes is found closed before the next joke: at the report that
/// follows the pause.
pub proof fn lemma_send_and_pause(state: SessionState, event: SessionEvent)
    ensures
        session_move(state, event) == SessionMove::Send <==> state == SessionState::Ready && event
            == (SessionEvent::Tick { closed: false }),
        session_move(state, event) is Pause <==> state == SessionState::Sending && event
            == SessionEvent::Delivered,
        session_move(state, event) is Pause ==> session_move(state, event) == SessionMove::Pause(
            PACING_SECS,
        ),
        session_move(state, event) == SessionMove::Stop <==> session_next(state, event)
            == SessionState::Closed,
{
}

/// On a report that the client is gone the session closes at once, from
/// every state, and its answer is to stop.
pub proof fn lemma_closure_stops(state: SessionState, event: SessionEvent)
    requires
        reports_closure(event),
    ensures
        session_next(state, event) == SessionState::Closed,
        session_move(state, event) == SessionMove::Stop,
{
}

/// A closed session stays closed, whatever is reported to it.
pub proof fn lemma_closed_stays_closed(events: Seq<SessionEvent>)
    ensures
        session_after(SessionState::Closed, events) == SessionState::Closed,
    decreases events.len(),
{
    if events.len() > 0 {
        lemma_closed_stays_closed(events.drop_last());
    }
}

/// After a report that the client is gone, the session is closed at every
/// later point of the run.
proof fn lemma_closed_from(state: SessionState, events: Seq<SessionEvent>, k: int, i: int)
    requires
        0 <= k <= i < events.len(),
        reports_closure(events[k]),
    ensures
        session_after(state, events.take(i + 1)) == SessionState::Closed,
    decreases i - k,
{
    assert(events.take(i + 1).drop_last() =~= events.take(i));
    if i > k {
        lemma_closed_from(state, events, k, i - 1);
    }
}

/// Once a report that the client is gone has reached a session, the session
/// sends no further joke: its answer to that report and to every later one
/// is to stop, and it ends closed.
pub proof fn lemma_no_send_after_closure(state: SessionState, events: Seq<SessionEvent>, k: int)
    requires
        0 <= k < events.len(),
        reports_closure(events[k]),
    ensures
        forall|i: int| k <= i < events.len() ==> session_moves(state, events)[i] == SessionMove::Stop,
        session_after(state, events) == SessionState::Closed,
{
    assert forall|i: int| k <= i < events.len() implies session_moves(state, events)[i]
        == SessionMove::Stop by {
        if i > k {
            lemma_closed_from(state, events, k, i - 1);
        }
    }
    lemma_closed_from(state, events, k, events.len() - 1);
    assert(events.take(events.len() as int) =~= events);
}

} // verus!
