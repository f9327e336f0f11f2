use joke_stream::category::JokeType;
use joke_stream::joke::Joke;
use joke_stream::session::{
    select, select_from, Connection, Session, SessionAction, SessionError, SessionEvent,
    SessionState, PACING_SECS,
};
use joke_stream::store::Jokes;
use rand::rngs::StdRng;
use rand::SeedableRng;

const LIMERICKS: &[u8] = b"l one\nl two\n\nl three\n\nl four\nl five\n";
const KNOCK_KNOCKS: &[u8] = b"k one\n\nk two\nk three\n";

fn connection() -> Connection {
    Connection::new(Jokes::load(LIMERICKS, KNOCK_KNOCKS).ok().unwrap())
}

fn open(kind: JokeType) -> Session {
    connection().jokes(kind.as_i32()).ok().unwrap()
}

fn sent(action: SessionAction) -> Joke {
    match action {
        SessionAction::Send(joke) => joke,
        other => panic!("no joke was sent: {:?}", other),
    }
}

const OPEN: SessionEvent = SessionEvent::Tick { closed: false };
const SHUT: SessionEvent = SessionEvent::Tick { closed: true };

#[test]
fn pacing_is_ten_seconds() {
    assert_eq!(PACING_SECS, 10);
}

#[test]
fn unknown_kind_is_an_invalid_argument() {
    let connection = connection();
    assert_eq!(connection.jokes(3).err(), Some(SessionError::InvalidArgument));
    assert_eq!(connection.jokes(-1).err(), Some(SessionError::InvalidArgument));
}

#[test]
fn a_session_starts_ready_for_its_kind() {
    let connection = connection();
    for kind in [JokeType::Limerick, JokeType::KnockKnock, JokeType::Any] {
        let session = connection.jokes(kind.as_i32()).ok().unwrap();
        assert_eq!(session.state(), SessionState::Ready);
        assert_eq!(session.joke_type(), kind);
    }
}

#[test]
fn limerick_requests_get_limericks_only() {
    let mut rng = StdRng::seed_from_u64(1);
    let mut session = open(JokeType::Limerick);
    for _ in 0..200 {
        let joke = sent(session.step(OPEN, &mut rng));
        assert_eq!(joke.joke_type, 0);
        assert!(joke.lines[0].starts_with("l "));
        assert_eq!(session.step(SessionEvent::Delivered, &mut rng), SessionAction::Pause(10));
    }
}

#[test]
fn knock_knock_requests_get_knock_knock_jokes_only() {
    let mut rng = StdRng::seed_from_u64(2);
    let mut session = open(JokeType::KnockKnock);
    for _ in 0..200 {
        let joke = sent(session.step(OPEN, &mut rng));
        assert_eq!(joke.joke_type, 1);
        assert!(joke.lines[0].starts_with("k "));
        assert_eq!(session.step(SessionEvent::Delivered, &mut rng), SessionAction::Pause(10));
    }
}

#[test]
fn any_requests_get_both_kinds() {
    let mut rng = StdRng::seed_from_u64(3);
    let mut session = open(JokeType::Any);
    let mut limericks = 0;
    let mut knock_knocks = 0;
    for _ in 0..1000 {
        let joke = sent(session.step(OPEN, &mut rng));
        if joke.joke_type == 0 {
            limericks += 1;
        } else {
            assert_eq!(joke.joke_type, 1);
            knock_knocks += 1;
        }
        session.step(SessionEvent::Delivered, &mut rng);
    }
    assert!(limericks > 0);
    assert!(knock_knocks > 0);
    assert_eq!(limericks + knock_knocks, 1000);
}

#[test]
fn every_joke_of_a_list_is_drawn_in_time() {
    let jokes = Jokes::load(LIMERICKS, KNOCK_KNOCKS).ok().unwrap();
    let mut rng = StdRng::seed_from_u64(4);
    let mut seen = [false; 3];
    for _ in 0..500 {
        let joke = select(&jokes, JokeType::Limerick, &mut rng);
        let place = jokes.limericks().iter().position(|other| other == joke);
        seen[place.unwrap()] = true;
    }
    assert_eq!(seen, [true, true, true]);
}

#[test]
fn a_drawn_joke_is_one_of_the_collection() {
    let jokes = Jokes::load(LIMERICKS, KNOCK_KNOCKS).ok().unwrap();
    let mut rng = StdRng::seed_from_u64(5);
    for _ in 0..100 {
        let joke = select(&jokes, JokeType::Any, &mut rng);
        assert!(jokes.limericks().contains(joke) || jokes.knock_knock().contains(joke));
    }
}

#[test]
fn a_closed_channel_stops_the_session_before_any_send() {
    let mut rng = StdRng::seed_from_u64(6);
    let mut session = open(JokeType::Any);
    assert_eq!(session.step(SHUT, &mut rng), SessionAction::Stop);
    assert_eq!(session.state(), SessionState::Closed);
}

#[test]
fn a_refused_joke_stops_the_session() {
    let mut rng = StdRng::seed_from_u64(7);
    let mut session = open(JokeType::Limerick);
    sent(session.step(OPEN, &mut rng));
    assert_eq!(session.state(), SessionState::Sending);
    assert_eq!(session.step(SessionEvent::Refused, &mut rng), SessionAction::Stop);
    assert_eq!(session.state(), SessionState::Closed);
}

#[test]
fn a_channel_closed_during_the_pause_stops_the_session() {
    let mut rng = StdRng::seed_from_u64(8);
    let mut session = open(JokeType::KnockKnock);
    sent(session.step(OPEN, &mut rng));
    assert_eq!(
        session.step(SessionEvent::Delivered, &mut rng),
        SessionAction::Pause(PACING_SECS)
    );
    assert_eq!(session.state(), SessionState::Ready);
    assert_eq!(session.step(SHUT, &mut rng), SessionAction::Stop);
    assert_eq!(session.state(), SessionState::Closed);
}

#[test]
fn a_closed_session_sends_nothing_more() {
    let mut rng = StdRng::seed_from_u64(9);
    let mut session = open(JokeType::Any);
    session.step(SHUT, &mut rng);
    for event in [OPEN, SessionEvent::Delivered, OPEN, SessionEvent::Refused, SHUT, OPEN] {
        assert_eq!(session.step(event, &mut rng), SessionAction::Stop);
        assert_eq!(session.state(), SessionState::Closed);
    }
}

#[test]
fn an_event_out_of_turn_ends_the_session() {
    let mut rng = StdRng::seed_from_u64(10);
    let mut ready = open(JokeType::Any);
    assert_eq!(ready.step(SessionEvent::Delivered, &mut rng), SessionAction::Stop);
    assert_eq!(ready.state(), SessionState::Closed);
    let mut sending = open(JokeType::Any);
    sent(sending.step(OPEN, &mut rng));
    assert_eq!(sending.step(OPEN, &mut rng), SessionAction::Stop);
    assert_eq!(sending.state(), SessionState::Closed);
}

#[test]
fn sessions_of_one_connection_are_independent() {
    let connection = connection();
    let mut rng = StdRng::seed_from_u64(11);
    let mut first = connection.jokes(0).ok().unwrap();
    let mut second = connection.jokes(1).ok().unwrap();
    assert_eq!(first.step(SHUT, &mut rng), SessionAction::Stop);
    let joke = sent(second.step(OPEN, &mut rng));
    assert!(connection.store().knock_knock().contains(&joke));
    assert_eq!(second.state(), SessionState::Sending);
    assert_eq!(first.state(), SessionState::Closed);
}

#[test]
fn the_toss_decides_the_list_for_any() {
    let jokes = Jokes::load(LIMERICKS, KNOCK_KNOCKS).ok().unwrap();
    let mut rng = StdRng::seed_from_u64(12);
    for _ in 0..100 {
        let heads = select_from(&jokes, JokeType::Any, true, &mut rng);
        assert!(jokes.limericks().contains(heads));
        assert_eq!(heads.joke_type, 0);
        let tails = select_from(&jokes, JokeType::Any, false, &mut rng);
        assert!(jokes.knock_knock().contains(tails));
        assert_eq!(tails.joke_type, 1);
    }
}

#[test]
fn the_toss_does_not_matter_for_a_kind_of_joke() {
    let jokes = Jokes::load(LIMERICKS, KNOCK_KNOCKS).ok().unwrap();
    let mut rng = StdRng::seed_from_u64(13);
    for heads in [true, false] {
        for _ in 0..50 {
            let limerick = select_from(&jokes, JokeType::Limerick, heads, &mut rng);
            assert!(jokes.limericks().contains(limerick));
            let knock_knock = select_from(&jokes, JokeType::KnockKnock, heads, &mut rng);
            assert!(jokes.knock_knock().contains(knock_knock));
        }
    }
}
