use joke_stream::codec::{encode_joke, CodecError, MAX_PAYLOAD};
use joke_stream::joke::{Joke, Message};
use joke_stream::render::{
    repeat, row_id, row_ids, show, Page, Row, Update, INDENT_WIDTH, LINE_MILLIS, SETTLE_MILLIS,
};

const INDENT: &str = "&nbsp;&nbsp;&nbsp;&nbsp;&nbsp;&nbsp;&nbsp;&nbsp;&nbsp;&nbsp;&nbsp;&nbsp;&nbsp;&nbsp;&nbsp;";

fn joke(joke_type: i32, lines: &[&str]) -> Joke {
    Joke { joke_type, lines: lines.iter().map(|line| line.to_string()).collect() }
}

fn row(id: &str, html: &str) -> Row {
    Row { id: id.to_string(), html: html.to_string() }
}

fn names(first: usize, last: usize) -> Vec<String> {
    (first..=last).map(|row| format!("r{}", row)).collect()
}

fn message(joke_type: i32, lines: &[&str]) -> Message {
    Message::Joke(encode_joke(&joke(joke_type, lines)).ok().unwrap())
}

fn cleared(update: Update) -> Vec<String> {
    match update {
        Update::Show { clear, .. } => clear,
        Update::Broken { clear, .. } => clear,
        Update::Status { .. } => panic!("a status clears no row"),
    }
}

#[test]
fn the_timing_is_fixed() {
    assert_eq!(SETTLE_MILLIS, 1000);
    assert_eq!(LINE_MILLIS, 750);
    assert_eq!(INDENT_WIDTH, 15);
}

#[test]
fn text_is_repeated() {
    assert_eq!(repeat("ab", 0), "");
    assert_eq!(repeat("ab", 1), "ab");
    assert_eq!(repeat("ab", 3), "ababab");
    assert_eq!(repeat("", 4), "");
    assert_eq!(repeat("&nbsp;", 15), INDENT);
}

#[test]
fn rows_are_named_by_their_number() {
    assert_eq!(row_id(0), "r0");
    assert_eq!(row_id(1), "r1");
    assert_eq!(row_id(9), "r9");
    assert_eq!(row_id(10), "r10");
    assert_eq!(row_id(19), "r19");
    assert_eq!(row_id(100), "r100");
    assert_eq!(row_id(907), "r907");
    assert_eq!(row_id(1234567890), "r1234567890");
    assert_eq!(row_id(usize::MAX), format!("r{}", usize::MAX));
}

#[test]
fn the_first_rows_are_named_in_order() {
    assert_eq!(row_ids(0), Vec::<String>::new());
    assert_eq!(row_ids(1), vec!["r1".to_string()]);
    assert_eq!(row_ids(19), names(1, 19));
    assert_eq!(row_ids(120), names(1, 120));
}

#[test]
fn status_follows_the_connection() {
    let mut page = Page::new(4);
    assert_eq!(
        page.react(&Message::Connected),
        Update::Status { text: "Connected".to_string(), style: "color:green".to_string() }
    );
    assert_eq!(
        page.react(&Message::Disconnected),
        Update::Status { text: "Disconnected".to_string(), style: "color:red".to_string() }
    );
    assert_eq!(page.filled(), 4);
}

#[test]
fn every_second_line_of_a_knock_knock_joke_is_indented() {
    let rows = show(&joke(1, &["Knock knock", "Who's there?", "Boo", "Boo who?", "Don't cry"]));
    assert_eq!(
        rows,
        vec![
            row("r1", "Knock knock"),
            row("r2", &format!("{}Who's there?", INDENT)),
            row("r3", "Boo"),
            row("r4", &format!("{}Boo who?", INDENT)),
            row("r5", "Don't cry"),
        ]
    );
}

#[test]
fn no_line_of_another_joke_is_indented() {
    let lines = ["There was", "a young", "lady", "of Niger"];
    for joke_type in [0, 2, 7, -1] {
        let rows = show(&joke(joke_type, &lines));
        assert_eq!(
            rows,
            vec![row("r1", "There was"), row("r2", "a young"), row("r3", "lady"), row("r4", "of Niger")]
        );
    }
}

#[test]
fn a_joke_without_lines_shows_no_row() {
    assert_eq!(show(&joke(1, &[])), vec![]);
}

#[test]
fn every_line_gets_a_row() {
    let lines: Vec<String> = (0..25).map(|i| format!("line {}", i)).collect();
    let rows = show(&Joke { joke_type: 0, lines });
    assert_eq!(rows.len(), 25);
    assert_eq!(rows[19], row("r20", "line 19"));
    assert_eq!(rows[24], row("r25", "line 24"));
}

#[test]
fn a_new_page_clears_the_rows_it_was_told_of() {
    let mut page = Page::new(19);
    assert_eq!(page.filled(), 19);
    assert_eq!(
        page.react(&message(1, &["Knock knock", "Who's there?"])),
        Update::Show {
            clear: names(1, 19),
            rows: vec![row("r1", "Knock knock"), row("r2", &format!("{}Who's there?", INDENT))],
        }
    );
    assert_eq!(page.filled(), 2);
}

#[test]
fn an_empty_page_has_nothing_to_clear() {
    let mut page = Page::new(0);
    assert_eq!(
        page.react(&message(0, &["a"])),
        Update::Show { clear: vec![], rows: vec![row("r1", "a")] }
    );
}

#[test]
fn every_row_of_a_joke_is_cleared_for_the_next() {
    let mut page = Page::new(0);
    let long: Vec<String> = (0..20).map(|i| format!("line {}", i)).collect();
    let bytes = encode_joke(&Joke { joke_type: 0, lines: long }).ok().unwrap();
    let first = page.react(&Message::Joke(bytes));
    let filled: Vec<String> = match first {
        Update::Show { rows, .. } => rows.into_iter().map(|row| row.id).collect(),
        other => panic!("no joke was shown: {:?}", other),
    };
    assert_eq!(filled, names(1, 20));
    assert_eq!(page.filled(), 20);
    let second = page.react(&message(0, &["short"]));
    assert_eq!(second, Update::Show { clear: names(1, 20), rows: vec![row("r1", "short")] });
    assert_eq!(cleared(page.react(&message(0, &["a", "b", "c"]))), names(1, 1));
    assert_eq!(cleared(page.react(&message(0, &[]))), names(1, 3));
    assert_eq!(cleared(page.react(&message(0, &["a"]))), Vec::<String>::new());
}

#[test]
fn news_of_the_connection_leaves_the_rows_to_clear() {
    let mut page = Page::new(0);
    page.react(&message(1, &["a", "b", "c", "d"]));
    page.react(&Message::Disconnected);
    page.react(&Message::Connected);
    page.react(&Message::Disconnected);
    assert_eq!(page.filled(), 4);
    assert_eq!(cleared(page.react(&message(1, &["e"]))), names(1, 4));
}

#[test]
fn a_broken_payload_clears_the_rows_and_is_reported() {
    let mut page = Page::new(3);
    assert_eq!(
        page.react(&Message::Joke(vec![2, 1])),
        Update::Broken { clear: names(1, 3), error: CodecError::Malformed }
    );
    assert_eq!(page.filled(), 0);
    assert_eq!(
        page.react(&Message::Joke(vec![])),
        Update::Broken { clear: vec![], error: CodecError::Malformed }
    );
    page.react(&message(0, &["a", "b"]));
    assert_eq!(
        page.react(&Message::Joke(vec![0; MAX_PAYLOAD + 1])),
        Update::Broken { clear: names(1, 2), error: CodecError::TooLong }
    );
}

#[test]
fn display_follows_the_outcome_of_reading() {
    let mut page = Page::new(2);
    assert_eq!(
        page.display(Ok(joke(0, &["a"]))),
        Update::Show { clear: names(1, 2), rows: vec![row("r1", "a")] }
    );
    assert_eq!(
        page.display(Err(CodecError::Malformed)),
        Update::Broken { clear: names(1, 1), error: CodecError::Malformed }
    );
    assert_eq!(
        page.display(Err(CodecError::TooLong)),
        Update::Broken { clear: vec![], error: CodecError::TooLong }
    );
}
