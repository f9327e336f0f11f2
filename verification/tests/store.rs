use joke_stream::category::JokeType;
use joke_stream::joke::Joke;
use joke_stream::store::{read_jokes, Jokes, LoadError};
use joke_stream::text::{next_line, LineSpan};

fn lines_of_each(jokes: &[Joke]) -> Vec<Vec<String>> {
    jokes.iter().map(|joke| joke.lines.clone()).collect()
}

fn strings(lines: &[&str]) -> Vec<String> {
    lines.iter().map(|line| line.to_string()).collect()
}

fn span_of(text: &[u8], start: usize) -> (usize, usize) {
    let LineSpan { stop, next } = next_line(text, start);
    (stop, next)
}

#[test]
fn blank_lines_part_the_jokes() {
    let jokes = read_jokes(JokeType::Limerick, b"a\nb\n\nc\n\n\nd\ne\n");
    assert_eq!(
        lines_of_each(&jokes),
        vec![strings(&["a", "b"]), strings(&["c"]), strings(&["d", "e"])]
    );
}

#[test]
fn jokes_carry_the_number_of_their_kind() {
    let limericks = read_jokes(JokeType::Limerick, b"a\n\nb\n");
    assert!(limericks.iter().all(|joke| joke.joke_type == 0));
    let knock_knock = read_jokes(JokeType::KnockKnock, b"a\n\nb\n");
    assert!(knock_knock.iter().all(|joke| joke.joke_type == 1));
    assert_eq!(knock_knock.len(), 2);
}

#[test]
fn last_joke_needs_no_line_ending() {
    let jokes = read_jokes(JokeType::Limerick, b"a\n\nb\nc");
    assert_eq!(lines_of_each(&jokes), vec![strings(&["a"]), strings(&["b", "c"])]);
}

#[test]
fn leading_and_trailing_blank_lines_make_no_joke() {
    let jokes = read_jokes(JokeType::Limerick, b"\n\n\na\n\n\n");
    assert_eq!(lines_of_each(&jokes), vec![strings(&["a"])]);
}

#[test]
fn empty_text_holds_no_joke() {
    assert!(read_jokes(JokeType::Limerick, b"").is_empty());
    assert!(read_jokes(JokeType::Limerick, b"\n").is_empty());
    assert!(read_jokes(JokeType::Limerick, b"\n\r\n\n").is_empty());
}

#[test]
fn carriage_return_before_line_feed_is_dropped() {
    let jokes = read_jokes(JokeType::KnockKnock, b"a\r\nb\r\n\r\nc\r\n");
    assert_eq!(lines_of_each(&jokes), vec![strings(&["a", "b"]), strings(&["c"])]);
}

#[test]
fn carriage_return_elsewhere_is_kept() {
    let jokes = read_jokes(JokeType::KnockKnock, b"a\rb\n\r\r\nc\r");
    assert_eq!(lines_of_each(&jokes), vec![strings(&["a\rb", "\r", "c\r"])]);
}

#[test]
fn a_line_of_spaces_is_not_blank() {
    let jokes = read_jokes(JokeType::Limerick, b"a\n \nb\n");
    assert_eq!(lines_of_each(&jokes), vec![strings(&["a", " ", "b"])]);
}

#[test]
fn text_beyond_ascii_is_read() {
    let jokes = read_jokes(JokeType::Limerick, "há\n\n– ß ✓\n".as_bytes());
    assert_eq!(lines_of_each(&jokes), vec![strings(&["há"]), strings(&["– ß ✓"])]);
}

#[test]
fn reading_stops_at_a_line_that_is_not_utf8() {
    let jokes = read_jokes(JokeType::Limerick, b"a\n\nb\n\xff\nc\n\nd\n");
    assert_eq!(lines_of_each(&jokes), vec![strings(&["a"]), strings(&["b"])]);
    let none = read_jokes(JokeType::Limerick, b"\xc3\n\na\n");
    assert!(none.is_empty());
}

#[test]
fn lines_are_spanned() {
    let text = b"ab\r\ncd\n\nef";
    assert_eq!(span_of(text, 0), (2, 4));
    assert_eq!(span_of(text, 4), (6, 7));
    assert_eq!(span_of(text, 7), (7, 8));
    assert_eq!(span_of(text, 8), (10, 10));
    assert_eq!(span_of(text, 1), (2, 4));
    assert_eq!(span_of(text, 3), (3, 4));
}

#[test]
fn empty_file_fails_to_load() {
    assert_eq!(
        Jokes::load(b"", b"knock\n").err(),
        Some(LoadError::EmptyCategory(JokeType::Limerick))
    );
    assert_eq!(
        Jokes::load(b"there was\n", b"").err(),
        Some(LoadError::EmptyCategory(JokeType::KnockKnock))
    );
}

#[test]
fn file_of_blank_lines_fails_to_load() {
    assert_eq!(
        Jokes::load(b"a\n", b"\n\n\n").err(),
        Some(LoadError::EmptyCategory(JokeType::KnockKnock))
    );
}

#[test]
fn first_empty_kind_is_named() {
    assert_eq!(
        Jokes::load(b"", b"").err(),
        Some(LoadError::EmptyCategory(JokeType::Limerick))
    );
}

#[test]
fn loaded_jokes_keep_order_and_kind() {
    let jokes = Jokes::load(b"l1\nl2\n\nl3\n", b"k1\n\nk2\nk3\n\nk4\n").ok().unwrap();
    assert_eq!(
        lines_of_each(jokes.limericks()),
        vec![strings(&["l1", "l2"]), strings(&["l3"])]
    );
    assert_eq!(
        lines_of_each(jokes.knock_knock()),
        vec![strings(&["k1"]), strings(&["k2", "k3"]), strings(&["k4"])]
    );
    assert!(jokes.limericks().iter().all(|joke| joke.joke_type == 0));
    assert!(jokes.knock_knock().iter().all(|joke| joke.joke_type == 1));
}

#[test]
fn the_list_follows_the_kind_and_the_toss() {
    let jokes = Jokes::load(b"l\n", b"k\n\nk\n").ok().unwrap();
    assert_eq!(jokes.list_for(JokeType::Limerick, true).len(), 1);
    assert_eq!(jokes.list_for(JokeType::Limerick, false).len(), 1);
    assert_eq!(jokes.list_for(JokeType::KnockKnock, true).len(), 2);
    assert_eq!(jokes.list_for(JokeType::KnockKnock, false).len(), 2);
    assert_eq!(jokes.list_for(JokeType::Any, true).len(), 1);
    assert_eq!(jokes.list_for(JokeType::Any, false).len(), 2);
}

#[test]
fn a_copy_is_the_same_joke() {
    let jokes = read_jokes(JokeType::KnockKnock, b"Knock knock\nWho's there?\n");
    let copy = jokes[0].clone();
    assert_eq!(copy, jokes[0]);
    assert_eq!(copy.lines, strings(&["Knock knock", "Who's there?"]));
    assert_eq!(copy.joke_type, 1);
}
