//! What the page shows for each message from its worker.
//!
//! The page has a status line and numbered rows, `r1`, `r2` and so on, one
//! for each line of a joke. A `Page` remembers which rows hold text, and
//! `Page::react` turns a message into what is to be shown. For a joke that
//! is the rows to clear, which are all that hold text, and the rows to
//! fill. The page's loop writes this into the document and keeps the
//! timing: it clears, waits `SETTLE_MILLIS`, then fills one row after the
//! other, `LINE_MILLIS` apart. In a knock-knock joke every second line is
//! indented.

use vstd::prelude::*;
use vstd::string::StringExecFns;

use crate::category::KNOCK_KNOCK;
use crate::codec::{bincode_decoding, decode_joke, reading_view, unpacked, CodecError};
use crate::joke::{Joke, JokeView, Message, MessageView};

verus! {

/// The milliseconds between clearing the rows and the first line of a joke.
pub const SETTLE_MILLIS: u64 = 1000;

/// The milliseconds between one line of a joke and the next.
pub const LINE_MILLIS: u64 = 750;

/// The number of blanks before an indented line.
pub const INDENT_WIDTH: usize = 15;

/// `count` copies of `text`, one after the other.
pub open spec fn repeated(text: Seq<char>, count: nat) -> Seq<char>
    decreases count,
{
    if count == 0 {
        Seq::empty()
    } else {
        repeated(text, (count - 1) as nat) + text
    }
}

/// What stands before an indented line: `INDENT_WIDTH` blanks that the page
/// does not collapse.
pub open spec fn indent() -> Seq<char> {
    repeated("&nbsp;"@, INDENT_WIDTH as nat)
}

/// Whether the line at `index`, counted from 0, of a joke of the kind with
/// number `joke_type` is indented: every second line of a knock-knock joke.
pub open spec fn is_indented(joke_type: i32, index: int) -> bool {
    joke_type == KNOCK_KNOCK && index % 2 == 1
}

/// The digit `value` as a character.
pub open spec fn digit(value: int) -> char {
    if value == 0 {
        '0'
    } else if value == 1 {
        '1'
    } else if value == 2 {
        '2'
    } else if value == 3 {
        '3'
    } else if value == 4 {
        '4'
    } else if value == 5 {
        '5'
    } else if value == 6 {
        '6'
    } else if value == 7 {
        '7'
    } else if value == 8 {
        '8'
    } else {
        '9'
    }
}

/// `number` in decimal digits, without leading zeros.
pub open spec fn decimal(number: nat) -> Seq<char>
    decreases number,
{
    if number < 10 {
        seq![digit(number as int)]
    } else {
        decimal(number / 10).push(digit((number % 10) as int))
    }
}

/// The name of the row with the number `row` in the document.
pub open spec fn row_name(row: nat) -> Seq<char> {
    "r"@ + decimal(row)
}

/// What a row shows.
pub struct RowView {
    pub id: Seq<char>,
    pub html: Seq<char>,
}

/// A row of the page and the text to put into it.
#[derive(Debug, PartialEq, Eq)]
pub struct Row {
    pub id: String,
    pub html: String,
}

impl View for Row {
    type V = RowView;

    open spec fn view(&self) -> RowView {
        RowView { id: self.id@, html: self.html@ }
    }
}

/// The row for the line at `index`, counted from 0, of `joke`: the rows are
/// numbered from 1, and an indented line stands behind the indent.
pub open spec fn shown_row(joke: JokeView, index: int) -> RowView {
    RowView {
        id: row_name((index + 1) as nat),
        html: if is_indented(joke.joke_type, index) {
            indent() + joke.lines[index]
        } else {
            joke.lines[index]
        },
    }
}

/// The rows for the lines of `joke`, in order.
pub open spec fn shown_rows(joke: JokeView) -> Seq<RowView> {
    Seq::new(joke.lines.len(), |index: int| shown_row(joke, index))
}

/// The views of a list of rows, in order.
pub open spec fn rows_view(rows: Seq<Row>) -> Seq<RowView> {
    Seq::new(rows.len(), |i: int| rows[i]@)
}

/// The names of the first `count` rows, in order.
pub open spec fn row_names(count: nat) -> Seq<Seq<char>> {
    Seq::new(count, |i: int| row_name((i + 1) as nat))
}

/// The names of `rows`, in order.
pub open spec fn names_of(rows: Seq<RowView>) -> Seq<Seq<char>> {
    Seq::new(rows.len(), |i: int| rows[i].id)
}

/// What is to be shown.
pub enum UpdateView {
    Status { text: Seq<char>, style: Seq<char> },
    Show { clear: Seq<Seq<char>>, rows: Seq<RowView> },
    Broken { clear: Seq<Seq<char>>, error: CodecError },
}

/// What the page is to show.
#[derive(Debug, PartialEq, Eq)]
pub enum Update {
    /// Put `text` into the status line and give the line the style `style`.
    Status { text: String, style: String },
    /// Empty the rows named in `clear`, then fill `rows`, one after the
    /// other.
    Show { clear: Vec<String>, rows: Vec<Row> },
    /// Empty the rows named in `clear`. The payload of a joke could not be
    /// read: the worker and the page disagree, and the page cannot go on.
    Broken { clear: Vec<String>, error: CodecError },
}

impl View for Update {
    type V = UpdateView;

    open spec fn view(&self) -> UpdateView {
        match self {
            Update::Status { text, style } => UpdateView::Status { text: text@, style: style@ },
            Update::Show { clear, rows } => UpdateView::Show {
                clear: clear.deep_view(),
                rows: rows_view(rows@),
            },
            Update::Broken { clear, error } => UpdateView::Broken {
                clear: clear.deep_view(),
                error: *error,
            },
        }
    }
}

impl UpdateView {
    /// The names of the rows that the update empties.
    pub open spec fn cleared(self) -> Seq<Seq<char>> {
        match self {
            UpdateView::Status { .. } => Seq::empty(),
            UpdateView::Show { clear, .. } => clear,
            UpdateView::Broken { clear, .. } => clear,
        }
    }

    /// The names of the rows that the update fills.
    pub open spec fn filled(self) -> Seq<Seq<char>> {
        match self {
            UpdateView::Show { rows, .. } => names_of(rows),
            _ => Seq::empty(),
        }
    }
}

/// What is shown for the outcome `read` of reading a payload, on a page
/// whose first `filled` rows hold text: all of these are emptied.
pub open spec fn displayed(filled: nat, read: Result<JokeView, CodecError>) -> UpdateView {
    match read {
        Ok(joke) => UpdateView::Show { clear: row_names(filled), rows: shown_rows(joke) },
        Err(error) => UpdateView::Broken { clear: row_names(filled), error },
    }
}

/// The number of rows that hold text after the outcome `read` of reading a
/// payload was shown: one for each line of the joke.
pub open spec fn filled_by(read: Result<JokeView, CodecError>) -> nat {
    match read {
        Ok(joke) => joke.lines.len(),
        Err(_) => 0,
    }
}

/// What is shown for `message` on a page whose first `filled` rows hold
/// text.
pub open spec fn reaction(filled: nat, message: MessageView) -> UpdateView {
    match message {
        MessageView::Connected => UpdateView::Status {
            text: "Connected"@,
            style: "color:green"@,
        },
        MessageView::Disconnected => UpdateView::Status {
            text: "Disconnected"@,
            style: "color:red"@,
        },
        MessageView::Joke(bytes) => displayed(filled, unpacked(bytes, bincode_decoding(bytes))),
    }
}

/// The number of rows that hold text after `message` was shown on a page
/// whose first `filled` rows held text.
pub open spec fn filled_after(filled: nat, message: MessageView) -> nat {
    match message {
        MessageView::Joke(bytes) => filled_by(unpacked(bytes, bincode_decoding(bytes))),
        _ => filled,
    }
}

/// The number of rows that hold text after `messages` were shown one after
/// the other on a page whose first `filled` rows held text.
pub open spec fn filled_after_all(filled: nat, messages: Seq<MessageView>) -> nat
    decreases messages.len(),
{
    if messages.len() == 0 {
        filled
    } else {
        filled_after(filled_after_all(filled, messages.drop_last()), messages.last())
    }
}

/// `count` copies of `text`, one after the other.
pub fn repeat(text: &str, count: usize) -> (copies: String)
    ensures
        copies@ == repeated(text@, count as nat),
{
    let mut copies = String::new();
    let mut made: usize = 0;
    while made < count
        invariant
            made <= count,
            copies@ == repeated(text@, made as nat),
        decreases count - made,
    {
        copies.append(text);
        made += 1;
    }
    copies
}

/// The digit `value` as a string.
fn digit_text(value: usize) -> (text: &'static str)
    requires
        value < 10,
    ensures
        text@ == seq![digit(value as int)],
{
    let text = if value == 0 {
        "0"
    } else if value == 1 {
        "1"
    } else if value == 2 {
        "2"
    } else if value == 3 {
        "3"
    } else if value == 4 {
        "4"
    } else if value == 5 {
        "5"
    } else if value == 6 {
        "6"
    } else if value == 7 {
        "7"
    } else if value == 8 {
        "8"
    } else {
        "9"
    };
    proof {
        reveal_strlit("0");
        reveal_strlit("1");
        reveal_strlit("2");
        reveal_strlit("3");
        reveal_strlit("4");
        reveal_strlit("5");
        reveal_strlit("6");
        reveal_strlit("7");
        reveal_strlit("8");
        reveal_strlit("9");
        assert(text@ =~= seq![digit(value as int)]);
    }
    text
}

/// Appends `number` in decimal digits to `text`.
fn append_decimal(text: &mut String, number: usize)
    ensures
        final(text)@ == old(text)@ + decimal(number as nat),
    decreases number,
{
    if number < 10 {
        text.append(digit_text(number));
    } else {
        append_decimal(text, number / 10);
        text.append(digit_text(number % 10));
        assert(text@ =~= old(text)@ + decimal(number as nat));
    }
}

/// The name of the row with the number `row` in the document.
pub fn row_id(row: usize) -> (id: String)
    ensures
        id@ == row_name(row as nat),
{
    let mut id = "r".to_owned();
    append_decimal(&mut id, row);
    id
}

/// The names of the first `count` rows, in order.
pub fn row_ids(count: usize) -> (ids: Vec<String>)
    ensures
        ids.deep_view() == row_names(count as nat),
{
    let mut ids: Vec<String> = Vec::new();
    let mut row: usize = 0;
    while row < count
        invariant
            row <= count,
            ids@.len() == row,
            forall|i: int| 0 <= i < ids@.len() ==> (#[trigger] ids@[i])@ == row_name((i + 1) as nat),
        decreases count - row,
    {
        row += 1;
        ids.push(row_id(row));
    }
    assert(ids.deep_view() =~= row_names(count as nat));
    ids
}

/// The rows for the lines of `joke`, in order.
pub fn show(joke: &Joke) -> (rows: Vec<Row>)
    ensures
        rows_view(rows@) == shown_rows(joke@),
{
    let blanks = repeat("&nbsp;", INDENT_WIDTH);
    let mut rows: Vec<Row> = Vec::new();
    let mut index: usize = 0;
    while index < joke.lines.len()
        invariant
            index <= joke.lines@.len(),
            blanks@ == indent(),
            rows@.len() == index,
            forall|i: int| 0 <= i < index ==> (#[trigger] rows@[i])@ == shown_row(joke@, i),
        decreases joke.lines@.len() - index,
    {
        let line = joke.lines[index].as_str();
        let html = if joke.joke_type == KNOCK_KNOCK && index % 2 == 1 {
            blanks.clone().concat(line)
        } else {
            line.to_owned()
        };
        rows.push(Row { id: row_id(index + 1), html });
        index += 1;
    }
    assert(rows_view(rows@) =~= shown_rows(joke@));
    rows
}

/// What the page shows: the number of its rows, counted from the first,
/// beyond which no row holds text.
pub struct Page {
    filled: usize,
}

impl View for Page {
    type V = nat;

    closed spec fn view(&self) -> nat {
        self.filled as nat
    }
}

impl Page {
    /// A page of which at most the first `filled` rows hold text.
    pub fn new(filled: usize) -> (page: Self)
        ensures
            page@ == filled,
    {
        Page { filled }
    }

    /// The number of rows, counted from the first, beyond which no row
    /// holds text.
    pub fn filled(&self) -> (filled: usize)
        ensures
            filled == self@,
    {
        self.filled
    }

    /// What the page shows for the outcome of reading a payload: every row
    /// that holds text is emptied; then the rows of the joke are filled, or
    /// the payload is reported broken.
    pub fn display(&mut self, read: Result<Joke, CodecError>) -> (update: Update)
        ensures
            update@ == displayed(old(self)@, reading_view(read)),
            final(self)@ == filled_by(reading_view(read)),
    {
        let clear = row_ids(self.filled);
        match read {
            Ok(joke) => {
                let rows = show(&joke);
                assert(rows@.len() == shown_rows(joke@).len()) by {
                    assert(rows_view(rows@).len() == rows@.len());
                }
                self.filled = rows.len();
                Update::Show { clear, rows }
            },
            Err(error) => {
                self.filled = 0;
                Update::Broken { clear, error }
            },
        }
    }

    /// What the page shows for `message`: the state of the connection in
    /// the status line, or the joke that the payload holds in place of all
    /// that the rows held.
    pub fn react(&mut self, message: &Message) -> (update: Update)
        ensures
            update@ == reaction(old(self)@, message@),
            final(self)@ == filled_after(old(self)@, message@),
    {
        match message {
            Message::Connected => Update::Status {
                text: "Connected".to_owned(),
                style: "color:green".to_owned(),
            },
            Message::Disconnected => Update::Status {
                text: "Disconnected".to_owned(),
                style: "color:red".to_owned(),
            },
            Message::Joke(bytes) => self.display(decode_joke(bytes.as_slice())),
        }
    }
}

/// An update empties the first rows of the page, as many as held text, and
/// the rows it fills are the first rows of the page, as many as hold text
/// after it.
pub proof fn lemma_rows_of_update(filled: nat, message: MessageView)
    ensures
        message is Joke ==> reaction(filled, message).cleared() == row_names(filled),
        reaction(filled, message) is Show ==> reaction(filled, message).filled() == row_names(
            filled_after(filled, message),
        ),
        !(message is Joke) ==> filled_after(filled, message) == filled,
{
    if reaction(filled, message) is Show {
        assert(reaction(filled, message).filled() =~= row_names(filled_after(filled, message)));
    }
}

/// Messages about the connection leave the rows as they are.
pub proof fn lemma_status_keeps_rows(filled: nat, messages: Seq<MessageView>)
    requires
        forall|i: int| 0 <= i < messages.len() ==> !(#[trigger] messages[i] is Joke),
    ensures
        filled_after_all(filled, messages) == filled,
    decreases messages.len(),
{
    if messages.len() > 0 {
        let before = messages.drop_last();
        assert forall|i: int| 0 <= i < before.len() implies !(#[trigger] before[i] is Joke) by {
            assert(before[i] == messages[i]);
        }
        lemma_status_keeps_rows(filled, before);
    }
}

/// Nothing of a joke stays on show under the next one: the rows that are
/// emptied for a joke message are exactly the rows that were filled for the
/// joke message before it, whatever was said about the connection in
/// between.
pub proof fn lemma_shown_rows_are_cleared(
    filled: nat,
    first: MessageView,
    between: Seq<MessageView>,
    next: MessageView,
)
    requires
        reaction(filled, first) is Show,
        forall|i: int| 0 <= i < between.len() ==> !(#[trigger] between[i] is Joke),
        next is Joke,
    ensures
        reaction(
            filled_after_all(filled_after(filled, first), between),
            next,
        ).cleared() == reaction(filled, first).filled(),
{
    lemma_rows_of_update(filled, first);
    lemma_status_keeps_rows(filled_after(filled, first), between);
    lemma_rows_of_update(filled_after(filled, first), next);
}

} // verus!
