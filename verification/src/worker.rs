//! The worker that keeps the stream of jokes alive for the page.
//!
//! The worker waits until the page asks for jokes; it connects nothing
//! before. Then it connects, and after each failure it tries again once
//! `RETRY_MILLIS` have passed, without end and without growing the delay:
//! the server is expected next door. Once connected it tells the page,
//! forwards each joke as a payload, and when the stream ends it tells the
//! page and connects again. It never finishes by itself. A joke that has no
//! payload is passed over; no other joke is.
//!
//! The worker's loop does the waiting, connecting and receiving. It reports
//! each outcome to `Worker::step`, sends the page what the answer holds, and
//! carries out the command in it.

use vstd::prelude::*;

use crate::codec::{bincode_encoding, encode_joke, fits, packed, payload, CodecError};
use crate::joke::{Joke, JokeView, Message, MessageView, Start};

verus! {

/// The milliseconds between a failed attempt to connect and the next one.
pub const RETRY_MILLIS: u64 = 1000;

/// Where the worker stands.
#[derive(Clone, Copy, Debug, PartialEq, Eq, Structural)]
pub enum WorkerState {
    /// The page has not asked for jokes yet.
    Idle,
    /// The worker is connecting, for jokes of the kind with this number.
    Connecting { joke_type: i32 },
    /// The worker is connected and receives jokes of the kind with this
    /// number.
    Streaming { joke_type: i32 },
}

/// What an event tells.
pub enum WorkerEventView {
    Requested(Start),
    ConnectFailed,
    Connected,
    Received(JokeView),
    StreamEnded,
}

/// What the worker's loop reports.
#[derive(Debug, PartialEq, Eq)]
pub enum WorkerEvent {
    /// The page asked for jokes.
    Requested(Start),
    /// An attempt to connect failed.
    ConnectFailed,
    /// An attempt to connect succeeded.
    Connected,
    /// The stream brought a joke.
    Received(Joke),
    /// The stream ended or broke.
    StreamEnded,
}

impl View for WorkerEvent {
    type V = WorkerEventView;

    open spec fn view(&self) -> WorkerEventView {
        match self {
            WorkerEvent::Requested(start) => WorkerEventView::Requested(*start),
            WorkerEvent::ConnectFailed => WorkerEventView::ConnectFailed,
            WorkerEvent::Connected => WorkerEventView::Connected,
            WorkerEvent::Received(joke) => WorkerEventView::Received(joke@),
            WorkerEvent::StreamEnded => WorkerEventView::StreamEnded,
        }
    }
}

/// What the worker's loop does next.
#[derive(Clone, Copy, Debug, PartialEq, Eq, Structural)]
pub enum WorkerCommand {
    /// Wait for the page to ask for jokes, then report `Requested`.
    AwaitRequest,
    /// Wait for `delay_millis`, try to connect for jokes of the kind with
    /// the number `joke_type`, then report `Connected` or `ConnectFailed`.
    Connect { joke_type: i32, delay_millis: u64 },
    /// Wait for the stream, then report `Received` or `StreamEnded`.
    Receive,
}

/// What an answer of the worker holds.
pub struct WorkerStepView {
    pub emit: Option<MessageView>,
    pub next: WorkerCommand,
    pub fault: Option<CodecError>,
}

/// The worker's answer to a report: what to send to the page, if anything,
/// what to do then, and why a joke was passed over, if one was.
#[derive(Debug, PartialEq, Eq)]
pub struct WorkerStep {
    pub emit: Option<Message>,
    pub next: WorkerCommand,
    pub fault: Option<CodecError>,
}

impl View for WorkerStep {
    type V = WorkerStepView;

    open spec fn view(&self) -> WorkerStepView {
        WorkerStepView {
            emit: match self.emit {
                Some(message) => Some(message@),
                None => None,
            },
            next: self.next,
            fault: self.fault,
        }
    }
}

/// The command on which a worker in `state` waits. A worker that is
/// connecting waits out the delay between attempts.
pub open spec fn awaited(state: WorkerState) -> WorkerCommand {
    match state {
        WorkerState::Idle => WorkerCommand::AwaitRequest,
        WorkerState::Connecting { joke_type } => WorkerCommand::Connect {
            joke_type,
            delay_millis: RETRY_MILLIS,
        },
        WorkerState::Streaming { joke_type } => WorkerCommand::Receive,
    }
}

/// An answer that sends the page nothing and passes over no joke.
pub open spec fn quiet(next: WorkerCommand) -> WorkerStepView {
    WorkerStepView { emit: None, next, fault: None }
}

/// An answer that sends `message` to the page.
pub open spec fn telling(message: MessageView, next: WorkerCommand) -> WorkerStepView {
    WorkerStepView { emit: Some(message), next, fault: None }
}

/// The answer for a joke that the stream brought, from the outcome `packed`
/// of packing it: the payload goes to the page. A joke without a payload is
/// passed over, and the answer says why. Either way the worker receives on.
pub open spec fn forwarded(packed: Result<Seq<u8>, CodecError>) -> WorkerStepView {
    match packed {
        Ok(bytes) => telling(MessageView::Joke(bytes), WorkerCommand::Receive),
        Err(error) => WorkerStepView {
            emit: None,
            next: WorkerCommand::Receive,
            fault: Some(error),
        },
    }
}

/// The state of a worker after `event` reached it in `state`. An event that
/// the state does not wait for changes nothing.
pub open spec fn worker_next(state: WorkerState, event: WorkerEventView) -> WorkerState {
    match (state, event) {
        (WorkerState::Idle, WorkerEventView::Requested(start)) => WorkerState::Connecting {
            joke_type: start.joke_type,
        },
        (WorkerState::Connecting { joke_type }, WorkerEventView::Connected) => WorkerState::Streaming {
            joke_type,
        },
        (WorkerState::Streaming { joke_type }, WorkerEventView::StreamEnded) => WorkerState::Connecting {
            joke_type,
        },
        _ => state,
    }
}

/// The answer of a worker to `event` in `state`. To an event that the state
/// does not wait for, the answer is to go on waiting.
pub open spec fn worker_step(state: WorkerState, event: WorkerEventView) -> WorkerStepView {
    match (state, event) {
        (WorkerState::Idle, WorkerEventView::Requested(start)) => quiet(
            WorkerCommand::Connect { joke_type: start.joke_type, delay_millis: 0 },
        ),
        (WorkerState::Connecting { joke_type }, WorkerEventView::ConnectFailed) => quiet(
            WorkerCommand::Connect { joke_type, delay_millis: RETRY_MILLIS },
        ),
        (WorkerState::Connecting { joke_type }, WorkerEventView::Connected) => telling(
            MessageView::Connected,
            WorkerCommand::Receive,
        ),
        (WorkerState::Streaming { joke_type }, WorkerEventView::Received(joke)) => forwarded(
            packed(bincode_encoding(joke)),
        ),
        (WorkerState::Streaming { joke_type }, WorkerEventView::StreamEnded) => telling(
            MessageView::Disconnected,
            WorkerCommand::Connect { joke_type, delay_millis: 0 },
        ),
        _ => quiet(awaited(state)),
    }
}

/// The answer for a joke that the stream brought, from the outcome of
/// packing it.
pub fn forward(packed: Result<Vec<u8>, CodecError>) -> (step: WorkerStep)
    ensures
        step@ == forwarded(
            match packed {
                Ok(bytes) => Ok(bytes@),
                Err(error) => Err(error),
            },
        ),
{
    match packed {
        Ok(bytes) => WorkerStep {
            emit: Some(Message::Joke(bytes)),
            next: WorkerCommand::Receive,
            fault: None,
        },
        Err(error) => WorkerStep { emit: None, next: WorkerCommand::Receive, fault: Some(error) },
    }
}

/// The worker of one page.
pub struct Worker {
    state: WorkerState,
}

impl View for Worker {
    type V = WorkerState;

    closed spec fn view(&self) -> WorkerState {
        self.state
    }
}

impl Worker {
    /// A worker that waits for its page to ask for jokes.
    pub fn new() -> (worker: Self)
        ensures
            worker@ == WorkerState::Idle,
    {
        Worker { state: WorkerState::Idle }
    }

    /// Where the worker stands.
    pub fn state(&self) -> (state: WorkerState)
        ensures
            state == self@,
    {
        self.state
    }

    /// The command on which the worker waits: what its loop does first, and
    /// what it does again after an event out of turn.
    pub fn awaited(&self) -> (command: WorkerCommand)
        ensures
            command == self::awaited(self@),
    {
        match self.state {
            WorkerState::Idle => WorkerCommand::AwaitRequest,
            WorkerState::Connecting { joke_type } => WorkerCommand::Connect {
                joke_type,
                delay_millis: RETRY_MILLIS,
            },
            WorkerState::Streaming { joke_type } => WorkerCommand::Receive,
        }
    }

    /// Takes what the loop reports and answers what to send to the page and
    /// what to do next. A joke that fits is forwarded when the worker is
    /// streaming.
    pub fn step(&mut self, event: WorkerEvent) -> (step: WorkerStep)
        ensures
            final(self)@ == worker_next(old(self)@, event@),
            step@ == worker_step(old(self)@, event@),
            old(self)@ is Streaming ==> (event@ matches WorkerEventView::Received(joke) ==> fits(
                joke,
            ) ==> payload(joke) is Some && step@ == telling(
                MessageView::Joke(payload(joke)->0),
                WorkerCommand::Receive,
            )),
    {
        match (self.state, event) {
            (WorkerState::Idle, WorkerEvent::Requested(start)) => {
                self.state = WorkerState::Connecting { joke_type: start.joke_type };
                WorkerStep {
                    emit: None,
                    next: WorkerCommand::Connect { joke_type: start.joke_type, delay_millis: 0 },
                    fault: None,
                }
            },
            (WorkerState::Connecting { joke_type }, WorkerEvent::ConnectFailed) => WorkerStep {
                emit: None,
                next: WorkerCommand::Connect { joke_type, delay_millis: RETRY_MILLIS },
                fault: None,
            },
            (WorkerState::Connecting { joke_type }, WorkerEvent::Connected) => {
                self.state = WorkerState::Streaming { joke_type };
                WorkerStep {
                    emit: Some(Message::Connected),
                    next: WorkerCommand::Receive,
                    fault: None,
                }
            },
            (WorkerState::Streaming { joke_type }, WorkerEvent::Received(joke)) => forward(
                encode_joke(&joke),
            ),
            (WorkerState::Streaming { joke_type }, WorkerEvent::StreamEnded) => {
                self.state = WorkerState::Connecting { joke_type };
                WorkerStep {
                    emit: Some(Message::Disconnected),
                    next: WorkerCommand::Connect { joke_type, delay_millis: 0 },
                    fault: None,
                }
            },
            _ => WorkerStep { emit: None, next: self.awaited(), fault: None },
        }
    }
}

/// The state of a worker that was in `state` before `events` reached it one
/// after the other.
pub open spec fn worker_after(state: WorkerState, events: Seq<WorkerEventView>) -> WorkerState
    decreases events.len(),
{
    if events.len() == 0 {
        state
    } else {
        worker_next(worker_after(state, events.drop_last()), events.last())
    }
}

/// The answers of a worker that was in `state` to each of `events`.
pub open spec fn worker_steps(state: WorkerState, events: Seq<WorkerEventView>) -> Seq<
    WorkerStepView,
> {
    Seq::new(
        events.len(),
        |i: int| worker_step(worker_after(state, events.take(i)), events[i]),
    )
}

/// The messages that `steps` send to the page, in order.
pub open spec fn emitted(steps: Seq<WorkerStepView>) -> Seq<MessageView>
    decreases steps.len(),
{
    if steps.len() == 0 {
        Seq::empty()
    } else {
        match steps.last().emit {
            Some(message) => emitted(steps.drop_last()).push(message),
            None => emitted(steps.drop_last()),
        }
    }
}

/// The number of attempts to connect that `steps` command.
pub open spec fn attempts(steps: Seq<WorkerStepView>) -> nat
    decreases steps.len(),
{
    if steps.len() == 0 {
        0
    } else if steps.last().next is Connect {
        attempts(steps.drop_last()) + 1
    } else {
        attempts(steps.drop_last())
    }
}

/// `count` failed attempts to connect, one after the other.
pub open spec fn failures(count: nat) -> Seq<WorkerEventView> {
    Seq::new(count, |i: int| WorkerEventView::ConnectFailed)
}

/// The answer to a failed attempt: nothing for the page, and the next
/// attempt after the delay.
pub open spec fn retry(joke_type: i32) -> WorkerStepView {
    quiet(WorkerCommand::Connect { joke_type, delay_millis: RETRY_MILLIS })
}

/// The worker tells the page that it is connected exactly when an attempt
/// to connect succeeded, and that it is disconnected exactly when the stream
/// ended. It commands a first attempt to connect only when the page has
/// asked for jokes.
pub proof fn lemma_signals(state: WorkerState, event: WorkerEventView)
    ensures
        worker_step(state, event).emit == Some(MessageView::Connected) <==> state is Connecting
            && event is Connected,
        worker_step(state, event).emit == Some(MessageView::Disconnected) <==> state
            is Streaming && event is StreamEnded,
        state is Idle ==> (worker_step(state, event).next is Connect <==> event is Requested),
        state is Idle && !(event is Requested) ==> worker_step(state, event).next
            == WorkerCommand::AwaitRequest,
{
}

/// One event has the effect of one step.
pub proof fn lemma_worker_single(state: WorkerState, event: WorkerEventView)
    ensures
        worker_after(state, seq![event]) == worker_next(state, event),
        worker_steps(state, seq![event]) == seq![worker_step(state, event)],
{
    let events = seq![event];
    assert(events.drop_last() =~= Seq::<WorkerEventView>::empty());
    assert(events.take(0) =~= Seq::<WorkerEventView>::empty());
    assert(worker_after(state, events.drop_last()) == state);
    assert(worker_after(state, events.take(0)) == state);
    assert(worker_steps(state, events) =~= seq![worker_step(state, event)]);
}

/// One step sends the page what it holds for it, and commands an attempt to
/// connect where its command is to connect.
pub proof fn lemma_single_step(step: WorkerStepView)
    ensures
        emitted(seq![step]) == match step.emit {
            Some(message) => seq![message],
            None => Seq::empty(),
        },
        attempts(seq![step]) == if step.next is Connect {
            1nat
        } else {
            0nat
        },
{
    let steps = seq![step];
    assert(steps.drop_last() =~= Seq::<WorkerStepView>::empty());
    assert(emitted(steps.drop_last()) =~= Seq::<MessageView>::empty());
    assert(attempts(steps.drop_last()) == 0);
    match step.emit {
        Some(message) => {
            assert(emitted(steps) =~= seq![message]);
        },
        None => {
            assert(emitted(steps) =~= Seq::<MessageView>::empty());
        },
    }
}

/// Events that reach a worker in two parts have the effect of the first
/// part followed by that of the second.
pub proof fn lemma_worker_after_concat(
    state: WorkerState,
    first: Seq<WorkerEventView>,
    second: Seq<WorkerEventView>,
)
    ensures
        worker_after(state, first + second) == worker_after(worker_after(state, first), second),
    decreases second.len(),
{
    if second.len() == 0 {
        assert(first + second =~= first);
    } else {
        assert((first + second).drop_last() =~= first + second.drop_last());
        lemma_worker_after_concat(state, first, second.drop_last());
    }
}

/// The answers to events that reach a worker in two parts are the answers
/// to the first part, then those that the worker gives to the second part
/// from the state in which the first part left it.
pub proof fn lemma_worker_steps_concat(
    state: WorkerState,
    first: Seq<WorkerEventView>,
    second: Seq<WorkerEventView>,
)
    ensures
        worker_steps(state, first + second) == worker_steps(state, first) + worker_steps(
            worker_after(state, first),
            second,
        ),
{
    let whole = first + second;
    let middle = worker_after(state, first);
    let joined = worker_steps(state, first) + worker_steps(middle, second);
    assert forall|i: int| 0 <= i < whole.len() implies worker_steps(state, whole)[i] == joined[i] by {
        if i < first.len() {
            assert(whole.take(i) =~= first.take(i));
        } else {
            let j = i - first.len();
            assert(whole.take(i) =~= first + second.take(j));
            lemma_worker_after_concat(state, first, second.take(j));
        }
    }
    assert(worker_steps(state, whole) =~= joined);
}

/// What two runs of steps send to the page is what the first sends, then
/// what the second sends; they command as many attempts as both together.
pub proof fn lemma_steps_concat(first: Seq<WorkerStepView>, second: Seq<WorkerStepView>)
    ensures
        emitted(first + second) == emitted(first) + emitted(second),
        attempts(first + second) == attempts(first) + attempts(second),
    decreases second.len(),
{
    if second.len() == 0 {
        assert(first + second =~= first);
    } else {
        assert((first + second).drop_last() =~= first + second.drop_last());
        lemma_steps_concat(first, second.drop_last());
    }
    assert(emitted(first + second) =~= emitted(first) + emitted(second));
}

/// While attempts to connect fail, the worker goes on connecting: after each
/// failure it commands the next attempt, `RETRY_MILLIS` later, and sends the
/// page nothing.
pub proof fn lemma_failures(joke_type: i32, count: nat)
    ensures
        worker_after(WorkerState::Connecting { joke_type }, failures(count))
            == (WorkerState::Connecting { joke_type }),
        worker_steps(WorkerState::Connecting { joke_type }, failures(count)) == Seq::new(
            count,
            |i: int| retry(joke_type),
        ),
        emitted(worker_steps(WorkerState::Connecting { joke_type }, failures(count)))
            == Seq::<MessageView>::empty(),
        attempts(worker_steps(WorkerState::Connecting { joke_type }, failures(count))) == count,
    decreases count,
{
    let state = WorkerState::Connecting { joke_type };
    let steps = worker_steps(state, failures(count));
    if count > 0 {
        let fewer = (count - 1) as nat;
        lemma_failures(joke_type, fewer);
        assert(failures(count).drop_last() =~= failures(fewer));
        assert(failures(count) =~= failures(fewer) + seq![WorkerEventView::ConnectFailed]);
        lemma_worker_steps_concat(state, failures(fewer), seq![WorkerEventView::ConnectFailed]);
        lemma_worker_single(state, WorkerEventView::ConnectFailed);
        assert(steps.drop_last() =~= worker_steps(state, failures(fewer)));
        assert(steps =~= Seq::new(count, |i: int| retry(joke_type)));
    } else {
        assert(steps =~= Seq::new(count, |i: int| retry(joke_type)));
    }
}

/// A worker that connects while `count` attempts fail and the next one
/// succeeds makes each attempt `RETRY_MILLIS` after the failure before it,
/// tells the page nothing until the last attempt has succeeded, and then
/// that it is connected. It ends receiving.
pub proof fn lemma_connects_after_failures(joke_type: i32, count: nat)
    ensures
        ({
            let state = WorkerState::Connecting { joke_type };
            let events = failures(count).push(WorkerEventView::Connected);
            let steps = worker_steps(state, events);
            &&& worker_after(state, events) == (WorkerState::Streaming { joke_type })
            &&& steps.len() == count + 1
            &&& forall|i: int| 0 <= i < count ==> steps[i] == retry(joke_type)
            &&& steps[count as int] == telling(MessageView::Connected, WorkerCommand::Receive)
            &&& emitted(steps) == seq![MessageView::Connected]
            &&& attempts(steps) == count
        }),
{
    let state = WorkerState::Connecting { joke_type };
    let success = seq![WorkerEventView::Connected];
    let events = failures(count).push(WorkerEventView::Connected);
    assert(events =~= failures(count) + success);
    lemma_failures(joke_type, count);
    lemma_worker_after_concat(state, failures(count), success);
    lemma_worker_steps_concat(state, failures(count), success);
    let last = worker_steps(state, success);
    lemma_worker_single(state, WorkerEventView::Connected);
    lemma_single_step(worker_step(state, WorkerEventView::Connected));
    lemma_steps_concat(worker_steps(state, failures(count)), last);
    assert(emitted(worker_steps(state, events)) =~= seq![MessageView::Connected]);
}

/// From the page's request on, a worker whose first `count` attempts to
/// connect fail and whose next attempt succeeds makes `count + 1` attempts:
/// the first at once, each later one `RETRY_MILLIS` after a failure. All it
/// tells the page is that it is connected, and it tells that last.
pub proof fn lemma_reconnects_until_connected(start: Start, count: nat)
    ensures
        ({
            let events = seq![WorkerEventView::Requested(start)] + failures(count).push(
                WorkerEventView::Connected,
            );
            let steps = worker_steps(WorkerState::Idle, events);
            &&& worker_after(WorkerState::Idle, events) == (WorkerState::Streaming {
                joke_type: start.joke_type,
            })
            &&& steps.len() == count + 2
            &&& steps[0] == quiet(
                WorkerCommand::Connect { joke_type: start.joke_type, delay_millis: 0 },
            )
            &&& forall|i: int| 1 <= i <= count ==> steps[i] == retry(start.joke_type)
            &&& forall|i: int| 0 <= i <= count ==> steps[i].emit is None
            &&& steps[count as int + 1].emit == Some(MessageView::Connected)
            &&& emitted(steps) == seq![MessageView::Connected]
            &&& attempts(steps) == count + 1
        }),
{
    let joke_type = start.joke_type;
    let request = seq![WorkerEventView::Requested(start)];
    let rest = failures(count).push(WorkerEventView::Connected);
    let connecting = WorkerState::Connecting { joke_type };
    let first = worker_steps(WorkerState::Idle, request);
    lemma_worker_single(WorkerState::Idle, WorkerEventView::Requested(start));
    lemma_single_step(worker_step(WorkerState::Idle, WorkerEventView::Requested(start)));
    lemma_connects_after_failures(joke_type, count);
    lemma_worker_after_concat(WorkerState::Idle, request, rest);
    lemma_worker_steps_concat(WorkerState::Idle, request, rest);
    lemma_steps_concat(first, worker_steps(connecting, rest));
    let steps = worker_steps(WorkerState::Idle, request + rest);
    assert forall|i: int| 1 <= i <= count implies steps[i] == retry(joke_type) by {
        assert(steps[i] == worker_steps(connecting, rest)[i - 1]);
    }
    assert(steps[count as int + 1] == worker_steps(connecting, rest)[count as int]);
    assert(emitted(steps) =~= seq![MessageView::Connected]);
}

/// When the stream ends, the worker tells the page once that it is
/// disconnected and connects again at once; whatever number of attempts
/// then fail, the next thing it tells the page is that it is connected.
pub proof fn lemma_reconnects_after_stream_end(joke_type: i32, count: nat)
    ensures
        ({
            let state = WorkerState::Streaming { joke_type };
            let events = seq![WorkerEventView::StreamEnded] + failures(count).push(
                WorkerEventView::Connected,
            );
            let steps = worker_steps(state, events);
            &&& worker_after(state, events) == state
            &&& steps[0] == telling(
                MessageView::Disconnected,
                WorkerCommand::Connect { joke_type, delay_millis: 0 },
            )
            &&& forall|i: int| 1 <= i <= count ==> steps[i] == retry(joke_type)
            &&& emitted(steps) == seq![MessageView::Disconnected, MessageView::Connected]
            &&& attempts(steps) == count + 1
        }),
{
    let state = WorkerState::Streaming { joke_type };
    let end = seq![WorkerEventView::StreamEnded];
    let rest = failures(count).push(WorkerEventView::Connected);
    let connecting = WorkerState::Connecting { joke_type };
    let first = worker_steps(state, end);
    lemma_worker_single(state, WorkerEventView::StreamEnded);
    lemma_single_step(worker_step(state, WorkerEventView::StreamEnded));
    lemma_connects_after_failures(joke_type, count);
    lemma_worker_after_concat(state, end, rest);
    lemma_worker_steps_concat(state, end, rest);
    lemma_steps_concat(first, worker_steps(connecting, rest));
    let steps = worker_steps(state, end + rest);
    assert forall|i: int| 1 <= i <= count implies steps[i] == retry(joke_type) by {
        assert(steps[i] == worker_steps(connecting, rest)[i - 1]);
    }
    assert(emitted(steps) =~= seq![MessageView::Disconnected, MessageView::Connected]);
}

/// The jokes `jokes` as the stream brings them, one after the other.
pub open spec fn received(jokes: Seq<JokeView>) -> Seq<WorkerEventView> {
    Seq::new(jokes.len(), |i: int| WorkerEventView::Received(jokes[i]))
}

/// The messages that carry the payloads of `jokes`, in order.
pub open spec fn payloads(jokes: Seq<JokeView>) -> Seq<MessageView> {
    Seq::new(jokes.len(), |i: int| MessageView::Joke(payload(jokes[i])->0))
}

/// A streaming worker sends the page one message for a joke that has a
/// payload: that payload. It goes on receiving.
pub proof fn lemma_forwards_payload(joke_type: i32, joke: JokeView)
    requires
        payload(joke) is Some,
    ensures
        worker_step(WorkerState::Streaming { joke_type }, WorkerEventView::Received(joke))
            == telling(MessageView::Joke(payload(joke)->0), WorkerCommand::Receive),
        worker_next(WorkerState::Streaming { joke_type }, WorkerEventView::Received(joke))
            == (WorkerState::Streaming { joke_type }),
{
}

/// A streaming worker forwards the jokes that the stream brings one for
/// one and in order: where each has a payload, the page is sent exactly
/// their payloads, none left out, none twice.
pub proof fn lemma_forwards_each_joke(joke_type: i32, jokes: Seq<JokeView>)
    requires
        forall|i: int| 0 <= i < jokes.len() ==> payload(#[trigger] jokes[i]) is Some,
    ensures
        worker_after(WorkerState::Streaming { joke_type }, received(jokes))
            == (WorkerState::Streaming { joke_type }),
        emitted(worker_steps(WorkerState::Streaming { joke_type }, received(jokes))) == payloads(
            jokes,
        ),
    decreases jokes.len(),
{
    let state = WorkerState::Streaming { joke_type };
    if jokes.len() == 0 {
        assert(emitted(worker_steps(state, received(jokes))) =~= payloads(jokes));
    } else {
        let before = jokes.drop_last();
        let last = WorkerEventView::Received(jokes.last());
        lemma_forwards_each_joke(joke_type, before);
        lemma_forwards_payload(joke_type, jokes.last());
        assert(received(jokes) =~= received(before) + seq![last]);
        lemma_worker_after_concat(state, received(before), seq![last]);
        lemma_worker_steps_concat(state, received(before), seq![last]);
        lemma_worker_single(state, last);
        lemma_single_step(worker_step(state, last));
        lemma_steps_concat(worker_steps(state, received(before)), worker_steps(state, seq![last]));
        assert(payloads(jokes) =~= payloads(before) + seq![
            MessageView::Joke(payload(jokes.last())->0),
        ]);
    }
}

} // verus!
