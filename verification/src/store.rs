//! The joke files and the collection that is loaded from them.
//!
//! A joke file is plain text. Its jokes are runs of lines that are not empty;
//! empty lines stand between them. The file is read as far as its lines are
//! UTF-8.

use vstd::prelude::*;
use vstd::slice::slice_subrange;

use crate::category::{JokeType, KNOCK_KNOCK, LIMERICK};
use crate::joke::{jokes_view, Joke, JokeView};
use crate::text::{lines_of, next_line, readable, utf8_str};

verus! {

/// The joke that the lines `open` make when no further line joins them: none
/// where there are no lines.
pub open spec fn closed(open: Seq<Seq<char>>) -> Seq<Seq<Seq<char>>> {
    if open.len() == 0 {
        Seq::empty()
    } else {
        seq![open]
    }
}

/// The jokes that end within `rest`, where `open` holds the lines of a joke
/// that began before `rest`: each as its lines, in order.
pub open spec fn grouped(open: Seq<Seq<char>>, rest: Seq<Seq<char>>) -> Seq<Seq<Seq<char>>>
    decreases rest.len(),
{
    if rest.len() == 0 {
        closed(open)
    } else if rest[0].len() == 0 {
        closed(open) + grouped(Seq::empty(), rest.skip(1))
    } else {
        grouped(open.push(rest[0]), rest.skip(1))
    }
}

/// The jokes that `lines` hold, each as its lines.
pub open spec fn groups(lines: Seq<Seq<char>>) -> Seq<Seq<Seq<char>>> {
    grouped(Seq::empty(), lines)
}

/// The jokes with the kind number `code` and the lines of each of `groups`.
pub open spec fn jokes_of(code: i32, groups: Seq<Seq<Seq<char>>>) -> Seq<JokeView> {
    Seq::new(groups.len(), |i: int| JokeView { joke_type: code, lines: groups[i] })
}

/// The jokes of a joke file with the content `text`, as jokes of the kind
/// with number `code`.
pub open spec fn parsed(code: i32, text: Seq<u8>) -> Seq<JokeView> {
    jokes_of(code, groups(readable(lines_of(text))))
}

/// A list of jokes that holds the groups `done` still holds them, in order,
/// when a joke with the lines of one more group is pushed.
proof fn lemma_jokes_push(jokes: Seq<Joke>, joke: Joke, done: Seq<Seq<Seq<char>>>)
    requires
        jokes_view(jokes) == jokes_of(joke.joke_type, done),
    ensures
        jokes_view(jokes.push(joke)) == jokes_of(joke.joke_type, done.push(joke@.lines)),
{
    let code = joke.joke_type;
    let after = jokes.push(joke);
    assert(jokes_view(jokes).len() == jokes.len());
    assert(jokes_of(code, done).len() == done.len());
    assert forall|i: int| 0 <= i < after.len() implies jokes_view(after)[i] == jokes_of(
        code,
        done.push(joke@.lines),
    )[i] by {
        if i < jokes.len() {
            assert(jokes_view(jokes)[i] == jokes_of(code, done)[i]);
        }
    }
    assert(jokes_view(after) =~= jokes_of(code, done.push(joke@.lines)));
}

/// Reads the jokes of one kind from the content of a joke file.
pub fn read_jokes(jt: JokeType, text: &[u8]) -> (jokes: Vec<Joke>)
    ensures
        jokes_view(jokes@) == parsed(jt.code(), text@),
{
    let code: i32 = jt.as_i32();
    let mut jokes: Vec<Joke> = Vec::new();
    let mut open: Vec<String> = Vec::new();
    let mut start: usize = 0;
    let mut more: bool = true;
    let ghost all = groups(readable(lines_of(text@)));
    let ghost mut done: Seq<Seq<Seq<char>>> = Seq::empty();
    proof {
        assert(text@.skip(0) =~= text@);
        assert(jokes_view(jokes@) =~= jokes_of(code, done));
        assert(open.deep_view() =~= Seq::<Seq<char>>::empty());
    }
    while more && start < text.len()
        invariant
            start <= text@.len(),
            all == groups(readable(lines_of(text@))),
            jokes_view(jokes@) == jokes_of(code, done),
            more ==> done + grouped(open.deep_view(), readable(lines_of(text@.skip(start as int))))
                == all,
            !more ==> done + closed(open.deep_view()) == all,
        decreases text@.len() - start + (if more { 1int } else { 0int }),
    {
        let ghost here = text@.skip(start as int);
        let ghost before = open.deep_view();
        let span = next_line(text, start);
        proof {
            let lines = lines_of(here);
            let tail = lines_of(text@.skip(span.next as int));
            assert(lines == seq![text@.subrange(start as int, span.stop as int)] + tail);
            assert(lines.skip(1) =~= tail);
        }
        match utf8_str(slice_subrange(text, start, span.stop)) {
            None => {
                more = false;
            },
            Some(line) => {
                let ghost rest = readable(lines_of(text@.skip(span.next as int)));
                proof {
                    let read = readable(lines_of(here));
                    assert(read == seq![line@] + rest);
                    assert(read.skip(1) =~= rest);
                }
                if line.is_empty() {
                    if open.len() > 0 {
                        let joke = Joke { joke_type: code, lines: open };
                        proof {
                            lemma_jokes_push(jokes@, joke, done);
                            done = done.push(before);
                        }
                        jokes.push(joke);
                        open = Vec::new();
                        proof {
                            assert(open.deep_view() =~= Seq::<Seq<char>>::empty());
                            assert(done + grouped(Seq::empty(), rest) =~= all);
                        }
                    } else {
                        proof {
                            assert(before =~= Seq::<Seq<char>>::empty());
                            assert(done + grouped(Seq::empty(), rest) =~= all);
                        }
                    }
                } else {
                    open.push(line.to_owned());
                    proof {
                        assert(open.deep_view() =~= before.push(line@));
                    }
                }
                start = span.next;
            },
        }
    }
    if open.len() > 0 {
        let ghost last = open.deep_view();
        let joke = Joke { joke_type: code, lines: open };
        proof {
            lemma_jokes_push(jokes@, joke, done);
            assert(done.push(last) =~= done + closed(last));
        }
        jokes.push(joke);
    } else {
        proof {
            assert(done + closed(open.deep_view()) =~= done);
        }
    }
    jokes
}

/// Whether `lines` can be the lines of a joke: there is one, and none is
/// empty.
pub open spec fn is_group(lines: Seq<Seq<char>>) -> bool {
    &&& lines.len() > 0
    &&& forall|i: int| 0 <= i < lines.len() ==> lines[i].len() > 0
}

/// Whether none of `lines` is empty.
pub open spec fn no_line_empty(lines: Seq<Seq<char>>) -> bool {
    forall|i: int| 0 <= i < lines.len() ==> lines[i].len() > 0
}

/// Whether each of `lines` is empty.
pub open spec fn each_line_empty(lines: Seq<Seq<char>>) -> bool {
    forall|i: int| 0 <= i < lines.len() ==> lines[i].len() == 0
}

/// Lines without an empty one among them all join the joke that is open.
pub proof fn lemma_grouped_run(open: Seq<Seq<char>>, run: Seq<Seq<char>>)
    requires
        no_line_empty(run),
    ensures
        grouped(open, run) == closed(open + run),
    decreases run.len(),
{
    if run.len() == 0 {
        assert(open + run =~= open);
    } else {
        lemma_grouped_run(open.push(run[0]), run.skip(1));
        assert(open.push(run[0]) + run.skip(1) =~= open + run);
    }
}

/// Lines of which none is empty are one joke, unless there are no lines.
pub proof fn lemma_groups_of_run(run: Seq<Seq<char>>)
    requires
        no_line_empty(run),
    ensures
        groups(run) == closed(run),
{
    lemma_grouped_run(Seq::empty(), run);
    assert(Seq::<Seq<char>>::empty() + run =~= run);
}

/// An empty line parts what stands before it from what follows: the jokes
/// of the whole are those of the lines before it, then those of the lines
/// after it.
pub proof fn lemma_grouped_split(
    open: Seq<Seq<char>>,
    before: Seq<Seq<char>>,
    gap: Seq<char>,
    after: Seq<Seq<char>>,
)
    requires
        gap.len() == 0,
    ensures
        grouped(open, before + seq![gap] + after) == grouped(open, before) + groups(after),
    decreases before.len(),
{
    let whole = before + seq![gap] + after;
    if before.len() == 0 {
        assert(whole.skip(1) =~= after);
    } else {
        assert(whole[0] == before[0]);
        assert(whole.skip(1) =~= before.skip(1) + seq![gap] + after);
        if before[0].len() == 0 {
            lemma_grouped_split(Seq::empty(), before.skip(1), gap, after);
        } else {
            lemma_grouped_split(open.push(before[0]), before.skip(1), gap, after);
        }
    }
}

/// An empty line between two runs of lines parts their jokes; so do several.
pub proof fn lemma_groups_split(before: Seq<Seq<char>>, gap: Seq<char>, after: Seq<Seq<char>>)
    requires
        gap.len() == 0,
    ensures
        groups(before + seq![gap] + after) == groups(before) + groups(after),
{
    lemma_grouped_split(Seq::empty(), before, gap, after);
}

/// Every joke has a line, and no joke has an empty line.
pub proof fn lemma_grouped_are_groups(open: Seq<Seq<char>>, rest: Seq<Seq<char>>)
    requires
        no_line_empty(open),
    ensures
        forall|i: int| 0 <= i < grouped(open, rest).len() ==> is_group(#[trigger] grouped(open, rest)[i]),
    decreases rest.len(),
{
    let all = grouped(open, rest);
    if rest.len() == 0 {
        if open.len() > 0 {
            assert(is_group(all[0]));
        }
    } else if rest[0].len() == 0 {
        let later = grouped(Seq::empty(), rest.skip(1));
        lemma_grouped_are_groups(Seq::empty(), rest.skip(1));
        assert forall|i: int| 0 <= i < all.len() implies is_group(#[trigger] all[i]) by {
            if i >= closed(open).len() {
                assert(all[i] == later[i - closed(open).len()]);
            } else {
                assert(all[i] == open);
            }
        }
    } else {
        let joined = open.push(rest[0]);
        assert forall|i: int| 0 <= i < joined.len() implies joined[i].len() > 0 by {
            if i < open.len() {
                assert(joined[i] == open[i]);
            }
        }
        lemma_grouped_are_groups(joined, rest.skip(1));
        assert(all == grouped(joined, rest.skip(1)));
    }
    assert(forall|i: int| 0 <= i < all.len() ==> is_group(#[trigger] all[i]));
}

/// There is no joke exactly where no line is open and each line that
/// follows is empty.
pub proof fn lemma_grouped_none(open: Seq<Seq<char>>, rest: Seq<Seq<char>>)
    ensures
        grouped(open, rest).len() == 0 <==> open.len() == 0 && each_line_empty(rest),
    decreases rest.len(),
{
    if rest.len() == 0 {
    } else {
        let tail = rest.skip(1);
        assert(forall|i: int| 0 <= i < tail.len() ==> tail[i] == rest[i + 1]);
        if rest[0].len() == 0 {
            lemma_grouped_none(Seq::empty(), tail);
            if each_line_empty(tail) {
                assert forall|i: int| 0 <= i < rest.len() implies rest[i].len() == 0 by {
                    if i > 0 {
                        assert(rest[i] == tail[i - 1]);
                    }
                }
            }
        } else {
            lemma_grouped_none(open.push(rest[0]), tail);
        }
    }
}

/// A joke file without content holds no joke.
pub proof fn lemma_empty_file_has_no_joke(code: i32)
    ensures
        parsed(code, Seq::empty()).len() == 0,
{
}

/// Loading fails where one of the two files has no content: a collection
/// never lacks the jokes of a kind.
pub proof fn lemma_empty_file_fails_to_load(limericks: Seq<u8>, knock_knock: Seq<u8>)
    requires
        limericks.len() == 0 || knock_knock.len() == 0,
    ensures
        load_failure(limericks, knock_knock) is Some,
        limericks.len() == 0 ==> load_failure(limericks, knock_knock) == Some(
            LoadError::EmptyCategory(JokeType::Limerick),
        ),
{
    if limericks.len() == 0 {
        assert(limericks =~= Seq::<u8>::empty());
    } else {
        assert(knock_knock =~= Seq::<u8>::empty());
    }
}

/// A joke file holds no joke exactly where each line that can be read from
/// it is empty.
pub proof fn lemma_file_without_jokes(code: i32, text: Seq<u8>)
    ensures
        parsed(code, text).len() == 0 <==> each_line_empty(readable(lines_of(text))),
{
    lemma_grouped_none(Seq::empty(), readable(lines_of(text)));
}

/// Whether `joke` is a joke of the kind with number `code`: it has that
/// number, it has a line, and none of its lines is empty.
pub open spec fn is_joke(code: i32, joke: JokeView) -> bool {
    joke.joke_type == code && is_group(joke.lines)
}

/// Every joke read from a joke file is a joke of the kind it was read for.
pub proof fn lemma_parsed_are_jokes(code: i32, text: Seq<u8>)
    ensures
        forall|i: int| 0 <= i < parsed(code, text).len() ==> is_joke(code, #[trigger] parsed(code, text)[i]),
{
    let found = groups(readable(lines_of(text)));
    lemma_grouped_are_groups(Seq::empty(), readable(lines_of(text)));
    assert forall|i: int| 0 <= i < parsed(code, text).len() implies is_joke(
        code,
        #[trigger] parsed(code, text)[i],
    ) by {
        assert(is_group(found[i]));
    }
}

/// What a collection of jokes holds: the limericks and the knock-knock
/// jokes, each list in the order of its file.
pub struct JokesView {
    pub limericks: Seq<JokeView>,
    pub knock_knock: Seq<JokeView>,
}

impl JokesView {
    /// Whether the collection can serve every request: neither list is
    /// empty, and each list holds jokes of its own kind only.
    pub open spec fn well_formed(self) -> bool {
        &&& self.limericks.len() > 0
        &&& self.knock_knock.len() > 0
        &&& forall|i: int| 0 <= i < self.limericks.len() ==> is_joke(LIMERICK, #[trigger] self.limericks[i])
        &&& forall|i: int| 0 <= i < self.knock_knock.len() ==> is_joke(KNOCK_KNOCK, #[trigger] self.knock_knock[i])
    }

    /// The list from which a joke is drawn for a request of `kind`. For
    /// `JokeType::Any` the toss `heads` decides between the two lists.
    pub open spec fn list_for(self, kind: JokeType, heads: bool) -> Seq<JokeView> {
        match kind {
            JokeType::Limerick => self.limericks,
            JokeType::KnockKnock => self.knock_knock,
            JokeType::Any => if heads {
                self.limericks
            } else {
                self.knock_knock
            },
        }
    }

    /// Whether `joke` may be sent in answer to a request of `kind`.
    pub open spec fn offers(self, kind: JokeType, joke: JokeView) -> bool {
        self.list_for(kind, true).contains(joke) || self.list_for(kind, false).contains(joke)
    }
}

/// Why a collection could not be loaded.
#[derive(Clone, Copy, Debug, PartialEq, Eq, Structural)]
pub enum LoadError {
    /// The file of this kind holds no joke.
    EmptyCategory(JokeType),
}

/// The failure of loading the two files, if it fails: the first kind, the
/// limericks before the knock-knock jokes, whose file holds no joke.
pub open spec fn load_failure(limericks: Seq<u8>, knock_knock: Seq<u8>) -> Option<LoadError> {
    if parsed(LIMERICK, limericks).len() == 0 {
        Some(LoadError::EmptyCategory(JokeType::Limerick))
    } else if parsed(KNOCK_KNOCK, knock_knock).len() == 0 {
        Some(LoadError::EmptyCategory(JokeType::KnockKnock))
    } else {
        None
    }
}

/// The jokes that the server streams. A collection is loaded once and never
/// changed: sessions share it and only read it.
pub struct Jokes {
    limericks: Vec<Joke>,
    knock_knock: Vec<Joke>,
}

impl View for Jokes {
    type V = JokesView;

    closed spec fn view(&self) -> JokesView {
        JokesView {
            limericks: jokes_view(self.limericks@),
            knock_knock: jokes_view(self.knock_knock@),
        }
    }
}

impl Jokes {
    #[verifier::type_invariant]
    spec fn stocked(&self) -> bool {
        self@.well_formed()
    }

    /// Loads the collection from the content of the two joke files. Loading
    /// fails exactly where one of the files holds no joke.
    pub fn load(limericks: &[u8], knock_knock: &[u8]) -> (loaded: Result<Jokes, LoadError>)
        ensures
            match loaded {
                Ok(jokes) => {
                    &&& load_failure(limericks@, knock_knock@) is None
                    &&& jokes@.limericks == parsed(LIMERICK, limericks@)
                    &&& jokes@.knock_knock == parsed(KNOCK_KNOCK, knock_knock@)
                    &&& jokes@.well_formed()
                },
                Err(error) => load_failure(limericks@, knock_knock@) == Some(error),
            },
    {
        let first = read_jokes(JokeType::Limerick, limericks);
        if first.len() == 0 {
            return Err(LoadError::EmptyCategory(JokeType::Limerick));
        }
        let second = read_jokes(JokeType::KnockKnock, knock_knock);
        if second.len() == 0 {
            return Err(LoadError::EmptyCategory(JokeType::KnockKnock));
        }
        proof {
            lemma_parsed_are_jokes(LIMERICK, limericks@);
            lemma_parsed_are_jokes(KNOCK_KNOCK, knock_knock@);
        }
        Ok(Jokes { limericks: first, knock_knock: second })
    }

    /// The limericks, in the order of their file.
    pub fn limericks(&self) -> (list: &Vec<Joke>)
        ensures
            jokes_view(list@) == self@.limericks,
            self@.well_formed(),
    {
        proof {
            use_type_invariant(self);
        }
        &self.limericks
    }

    /// The knock-knock jokes, in the order of their file.
    pub fn knock_knock(&self) -> (list: &Vec<Joke>)
        ensures
            jokes_view(list@) == self@.knock_knock,
            self@.well_formed(),
    {
        proof {
            use_type_invariant(self);
        }
        &self.knock_knock
    }

    /// The list from which a joke is drawn for a request of `kind`. For
    /// `JokeType::Any` the toss `heads` decides between the two lists.
    pub fn list_for(&self, kind: JokeType, heads: bool) -> (list: &Vec<Joke>)
        ensures
            jokes_view(list@) == self@.list_for(kind, heads),
            list@.len() > 0,
            self@.well_formed(),
    {
        proof {
            use_type_invariant(self);
        }
        match kind {
            JokeType::Limerick => &self.limericks,
            JokeType::KnockKnock => &self.knock_knock,
            JokeType::Any => if heads {
                &self.limericks
            } else {
                &self.knock_knock
            },
        }
    }
}

} // verus!
