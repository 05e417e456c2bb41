//! Joining the lines that were read into one raw line.
//!
//! A line that ends in a backslash goes on in the next line that is read: the
//! backslash is dropped and the next line takes its place.

use vstd::prelude::*;
use vstd::string::*;

verus! {

/// The character that, at the end of a line, says that the line goes on.
pub const CONTINUATION: char = '\\';

/// Whether `s` ends in the continuation marker.
pub open spec fn continues(s: Seq<char>) -> bool {
    s.len() > 0 && s.last() == CONTINUATION
}

/// What the reader of lines is to do next.
#[derive(Debug, Clone, PartialEq, Eq)]
pub enum ReadStep {
    /// The line goes on: read another line and feed it after `partial`.
    More { partial: String },
    /// `line` is complete.
    Complete { line: String },
}

/// A step as plain values.
pub ghost enum ReadStepModel {
    More { partial: Seq<char> },
    Complete { line: Seq<char> },
}

impl View for ReadStep {
    type V = ReadStepModel;

    open spec fn view(&self) -> ReadStepModel {
        match *self {
            ReadStep::More { partial } => ReadStepModel::More { partial: partial@ },
            ReadStep::Complete { line } => ReadStepModel::Complete { line: line@ },
        }
    }
}

/// The step that follows when `read` comes in after `partial`: while the
/// text so far ends in the marker, the marker is dropped and more is wanted.
pub open spec fn step_of(partial: Seq<char>, read: Seq<char>) -> ReadStepModel {
    let text = partial + read;
    if continues(text) {
        ReadStepModel::More { partial: text.drop_last() }
    } else {
        ReadStepModel::Complete { line: text }
    }
}

/// The raw line that the lines `reads` give when they are fed one after the
/// other behind `partial`, or `None` where the last of them still goes on.
pub open spec fn joined(partial: Seq<char>, reads: Seq<Seq<char>>) -> Option<Seq<char>>
    decreases reads.len(),
{
    if reads.len() == 0 {
        None
    } else {
        match step_of(partial, reads[0]) {
            ReadStepModel::More { partial: next } => joined(next, reads.skip(1)),
            ReadStepModel::Complete { line } => if reads.len() == 1 {
                Some(line)
            } else {
                None
            },
        }
    }
}

/// Whether `line` ends in the continuation marker.
pub fn ends_in_marker(line: &str) -> (r: bool)
    ensures
        r == continues(line@),
{
    let n: usize = line.unicode_len();
    n > 0 && line.get_char(n - 1) == CONTINUATION
}

/// Takes the line `read` behind what was read before. Start with an empty
/// `partial`.
pub fn feed(partial: &str, read: &str) -> (step: ReadStep)
    ensures
        step@ == step_of(partial@, read@),
{
    let text = String::from_str(partial).concat(read);
    if ends_in_marker(text.as_str()) {
        let n: usize = text.as_str().unicode_len();
        let kept = text.as_str().substring_char(0, n - 1);
        assert(kept@ =~= text@.drop_last());
        ReadStep::More { partial: String::from_str(kept) }
    } else {
        ReadStep::Complete { line: text }
    }
}

/// Joining repeats: a line that goes on is joined with what the later lines
/// give, however many of them go on in turn.
pub proof fn lemma_joining_repeats(partial: Seq<char>, first: Seq<char>, rest: Seq<Seq<char>>)
    requires
        continues(partial + first),
    ensures
        joined(partial, seq![first] + rest) == joined((partial + first).drop_last(), rest),
{
    let reads = seq![first] + rest;
    assert(reads[0] == first);
    assert(reads.skip(1) =~= rest);
}

/// A line that does not go on is complete as it stands.
pub proof fn lemma_plain_line_is_complete(line: Seq<char>)
    requires
        !continues(line),
    ensures
        joined(Seq::empty(), seq![line]) == Some(line),
{
    assert(Seq::<char>::empty() + line =~= line);
}

} // verus!
