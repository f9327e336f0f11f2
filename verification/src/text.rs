//! Plain text held as bytes: its lines, and those that read as strings.
//!
//! A line ends at a line feed, or at the end of the text. The line feed is no
//! part of the line, nor is a carriage return directly before it. After the
//! last line feed an empty rest is no line.

use vstd::prelude::*;
use vstd::utf8::{decode_utf8, valid_utf8};

verus! {

/// The byte that ends a line.
pub const LINE_FEED: u8 = 10;

/// The byte that may stand before a line feed and then belongs to the line
/// ending.
pub const CARRIAGE_RETURN: u8 = 13;

/// The number of bytes before the first line feed of `text`, or the length of
/// `text` where it holds none.
pub open spec fn line_end(text: Seq<u8>) -> int
    decreases text.len(),
{
    if text.len() == 0 || text[0] == LINE_FEED {
        0
    } else {
        1 + line_end(text.skip(1))
    }
}

/// Whether the first line of `text` is ended by a line feed.
pub open spec fn first_line_is_ended(text: Seq<u8>) -> bool {
    line_end(text) < text.len()
}

/// `line` without the carriage return at its end, if it has one there.
pub open spec fn without_return(line: Seq<u8>) -> Seq<u8> {
    if line.len() > 0 && line.last() == CARRIAGE_RETURN {
        line.drop_last()
    } else {
        line
    }
}

/// The first line of `text`, without its line ending.
pub open spec fn first_line(text: Seq<u8>) -> Seq<u8> {
    let line = text.take(line_end(text));
    if first_line_is_ended(text) {
        without_return(line)
    } else {
        line
    }
}

/// What follows the first line of `text` and its line ending.
pub open spec fn after_first_line(text: Seq<u8>) -> Seq<u8> {
    if first_line_is_ended(text) {
        text.skip(line_end(text) + 1)
    } else {
        Seq::empty()
    }
}

/// The lines of `text`, in order.
pub open spec fn lines_of(text: Seq<u8>) -> Seq<Seq<u8>>
    decreases text.len(),
    via lines_of_decreases
{
    if text.len() == 0 {
        Seq::empty()
    } else {
        seq![first_line(text)] + lines_of(after_first_line(text))
    }
}

#[via_fn]
proof fn lines_of_decreases(text: Seq<u8>) {
    lemma_line_end(text);
}

/// The lines that can be read from `lines`: each line before the first one
/// that is not UTF-8, as the string it encodes.
pub open spec fn readable(lines: Seq<Seq<u8>>) -> Seq<Seq<char>>
    decreases lines.len(),
{
    if lines.len() == 0 || !valid_utf8(lines[0]) {
        Seq::empty()
    } else {
        seq![decode_utf8(lines[0])] + readable(lines.skip(1))
    }
}

/// `line_end` is the place of the first line feed: no byte before it is one,
/// and the byte at it is one unless the text ends there.
pub proof fn lemma_line_end(text: Seq<u8>)
    ensures
        0 <= line_end(text) <= text.len(),
        forall|k: int| 0 <= k < line_end(text) ==> text[k] != LINE_FEED,
        line_end(text) < text.len() ==> text[line_end(text)] == LINE_FEED,
    decreases text.len(),
{
    if text.len() != 0 && text[0] != LINE_FEED {
        let rest = text.skip(1);
        lemma_line_end(rest);
        assert forall|k: int| 0 <= k < line_end(text) implies text[k] != LINE_FEED by {
            if k > 0 {
                assert(text[k] == rest[k - 1]);
            }
        }
        assert(line_end(rest) < rest.len() ==> text[line_end(text)] == rest[line_end(rest)]);
    }
}

/// The place of the first line feed is `line_end`: a position with no line
/// feed before it, which holds one or is the end of the text.
pub proof fn lemma_line_end_found(text: Seq<u8>, end: int)
    requires
        0 <= end <= text.len(),
        forall|k: int| 0 <= k < end ==> text[k] != LINE_FEED,
        end < text.len() ==> text[end] == LINE_FEED,
    ensures
        line_end(text) == end,
{
    lemma_line_end(text);
    let found = line_end(text);
    if found < end {
        assert(text[found] == LINE_FEED);
    } else if end < found {
        assert(text[end] == LINE_FEED);
    }
}

/// Whether `line` holds no line feed.
pub open spec fn is_one_line(line: Seq<u8>) -> bool {
    forall|k: int| 0 <= k < line.len() ==> line[k] != LINE_FEED
}

/// Bytes without a line feed are one line, unless there are none.
pub proof fn lemma_lines_of_last(line: Seq<u8>)
    requires
        is_one_line(line),
        line.len() > 0,
    ensures
        lines_of(line) == seq![line],
{
    lemma_line_end_found(line, line.len() as int);
    assert(line.take(line.len() as int) =~= line);
    assert(lines_of(Seq::<u8>::empty()) =~= Seq::<Seq<u8>>::empty());
    assert(seq![line] + Seq::<Seq<u8>>::empty() =~= seq![line]);
}

/// A line feed ends the line before it: the lines of the whole are that
/// line, without a carriage return at its end, and the lines of what
/// follows the line feed.
pub proof fn lemma_lines_of_ended(line: Seq<u8>, rest: Seq<u8>)
    requires
        is_one_line(line),
    ensures
        lines_of(line + seq![LINE_FEED] + rest) == seq![without_return(line)] + lines_of(rest),
{
    let text = line + seq![LINE_FEED] + rest;
    lemma_line_end_found(text, line.len() as int);
    assert(text.take(line.len() as int) =~= line);
    assert(text.skip(line.len() as int + 1) =~= rest);
}

/// Where the first line of a text ends and where the next one starts.
pub struct LineSpan {
    /// One past the last byte of the line.
    pub stop: usize,
    /// The first byte after the line ending; the length of the text where
    /// nothing follows.
    pub next: usize,
}

/// Finds the line of `text` that starts at `start`.
pub fn next_line(text: &[u8], start: usize) -> (span: LineSpan)
    requires
        start < text@.len(),
    ensures
        start <= span.stop <= text@.len(),
        span.stop < span.next <= text@.len() || span.stop == span.next == text@.len(),
        text@.subrange(start as int, span.stop as int) == first_line(text@.skip(start as int)),
        text@.skip(span.next as int) == after_first_line(text@.skip(start as int)),
{
    let ghost rest = text@.skip(start as int);
    let mut end: usize = start;
    while end < text.len() && text[end] != LINE_FEED
        invariant
            start <= end <= text@.len(),
            rest == text@.skip(start as int),
            forall|k: int| 0 <= k < end - start ==> rest[k] != LINE_FEED,
        decreases text@.len() - end,
    {
        end += 1;
    }
    proof {
        lemma_line_end_found(rest, end - start);
        assert(rest.take(end - start) =~= text@.subrange(start as int, end as int));
    }
    if end == text.len() {
        proof {
            assert(text@.skip(end as int) =~= Seq::<u8>::empty());
        }
        LineSpan { stop: end, next: end }
    } else {
        let stop: usize = if end > start && text[end - 1] == CARRIAGE_RETURN {
            end - 1
        } else {
            end
        };
        proof {
            assert(text@.subrange(start as int, stop as int) =~= first_line(rest));
            assert(text@.skip(end + 1) =~= rest.skip(end - start + 1));
        }
        LineSpan { stop, next: end + 1 }
    }
}

/// Reads bytes as a string with `core::str::from_utf8`: the string that the
/// bytes encode, or nothing where they are not UTF-8.
#[verifier::external_body]
pub(crate) fn utf8_str(bytes: &[u8]) -> (text: Option<&str>)
    ensures
        text is Some <==> valid_utf8(bytes@),
        text matches Some(s) ==> s@ == decode_utf8(bytes@),
{
    core::str::from_utf8(bytes).ok()
}

} // verus!
