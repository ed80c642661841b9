//! The confirmation policy for operations that overwrite or delete.
//!
//! The user answers a yes/no question with one line. How the line is read,
//! and what an empty line means, is decided here; asking the question is the
//! caller's business.

use vstd::prelude::*;
use crate::text::{lower, lowered, to_chars, to_lower, trim_bounds, trimmed};

verus! {

/// What one line of input says.
#[derive(Clone, Copy, Debug, PartialEq, Eq, Structural)]
pub enum Answer {
    /// `y` or `yes`, in any mix of upper and lower case.
    Yes,
    /// `n` or `no`, in any mix of upper and lower case.
    No,
    /// Nothing but white space.
    Empty,
    /// Anything else.
    Other,
}

/// How a question was settled.
#[derive(Clone, Copy, Debug, PartialEq, Eq, Structural)]
pub enum Verdict {
    /// The user agreed, in words or by default.
    Accepted,
    /// The user declined, in words or by default.
    Declined,
    /// The input was not understood. It counts as a refusal, and the user is
    /// told so.
    Unrecognized,
}

/// The answer a line gives, once surrounding white space is dropped and
/// case is ignored.
pub open spec fn answer_of(line: Seq<char>) -> Answer {
    let word = lowered(trimmed(line));
    if word.len() == 0 {
        Answer::Empty
    } else if word == seq!['y'] || word == seq!['y', 'e', 's'] {
        Answer::Yes
    } else if word == seq!['n'] || word == seq!['n', 'o'] {
        Answer::No
    } else {
        Answer::Other
    }
}

/// The verdict on a line: yes accepts, no declines, an empty line takes the
/// default, and anything else is a refusal with a notice.
pub open spec fn verdict_of(line: Seq<char>, default_on_empty: bool) -> Verdict {
    match answer_of(line) {
        Answer::Yes => Verdict::Accepted,
        Answer::No => Verdict::Declined,
        Answer::Empty => if default_on_empty {
            Verdict::Accepted
        } else {
            Verdict::Declined
        },
        Answer::Other => Verdict::Unrecognized,
    }
}

/// Whether the characters of `chars` from `from` to `to` spell `word` when
/// case is ignored.
fn spells(chars: &Vec<char>, from: usize, to: usize, word: &Vec<char>) -> (r: bool)
    requires
        from <= to <= chars@.len(),
    ensures
        r == (lowered(chars@.subrange(from as int, to as int)) == word@),
{
    let ghost folded = lowered(chars@.subrange(from as int, to as int));
    if to - from != word.len() {
        return false;
    }
    let mut i: usize = 0;
    while i < word.len()
        invariant
            from <= to <= chars@.len(),
            to - from == word.len(),
            i <= word.len(),
            folded == lowered(chars@.subrange(from as int, to as int)),
            forall|j: int| 0 <= j < i ==> folded[j] == word@[j],
        decreases word.len() - i,
    {
        assert(folded[i as int] == lower(chars@[from + i]));
        if to_lower(chars[from + i]) != word[i] {
            return false;
        }
        i += 1;
    }
    assert(folded =~= word@);
    true
}

/// Reads the answer that a line of input gives.
pub fn read_answer(line: &str) -> (a: Answer)
    ensures
        a == answer_of(line@),
{
    let chars = to_chars(line);
    let (from, to) = trim_bounds(&chars);
    if from == to {
        return Answer::Empty;
    }
    let y = vec!['y'];
    let yes = vec!['y', 'e', 's'];
    let n = vec!['n'];
    let no = vec!['n', 'o'];
    assert(y@ =~= seq!['y']);
    assert(yes@ =~= seq!['y', 'e', 's']);
    assert(n@ =~= seq!['n']);
    assert(no@ =~= seq!['n', 'o']);
    if spells(&chars, from, to, &y) || spells(&chars, from, to, &yes) {
        Answer::Yes
    } else if spells(&chars, from, to, &n) || spells(&chars, from, to, &no) {
        Answer::No
    } else {
        Answer::Other
    }
}

/// Settles a yes/no question from the line the user gave.
pub fn confirm(line: &str, default_on_empty: bool) -> (v: Verdict)
    ensures
        v == verdict_of(line@, default_on_empty),
{
    match read_answer(line) {
        Answer::Yes => Verdict::Accepted,
        Answer::No => Verdict::Declined,
        Answer::Empty => if default_on_empty {
            Verdict::Accepted
        } else {
            Verdict::Declined
        },
        Answer::Other => Verdict::Unrecognized,
    }
}

} // verus!
