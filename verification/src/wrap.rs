//! What a test script expects, read from its comments.

use vstd::prelude::*;
use crate::text::{characters, slice};

verus! {

/// `pattern` stands in `text` at `at`.
pub open spec fn occurs_at(text: Seq<char>, pattern: Seq<char>, at: int) -> bool {
    0 <= at && at + pattern.len() <= text.len() && text.subrange(at, at + pattern.len())
        == pattern
}

/// The first place from `from` on at which `pattern` stands in `text`.
pub open spec fn first_occurrence(text: Seq<char>, pattern: Seq<char>, from: int) -> Option<int>
    decreases
        (if from <= text.len() {
            text.len() - from + 1
        } else {
            0
        }),
{
    if from < 0 || from + pattern.len() > text.len() {
        None
    } else if occurs_at(text, pattern, from) {
        Some(from)
    } else {
        first_occurrence(text, pattern, from + 1)
    }
}

/// What a comment expects: all that follows its first `expect: `, and
/// nothing where it holds none.
pub open spec fn expectation(comment: Seq<char>) -> Seq<char> {
    match first_occurrence(comment, "expect: "@, 0) {
        Some(at) => comment.subrange(at + "expect: "@.len(), comment.len() as int),
        None => Seq::empty(),
    }
}

/// Whether `pattern` stands in `text` at `at`.
fn stands_at(text: &Vec<char>, pattern: &Vec<char>, at: usize) -> (yes: bool)
    requires
        at <= text.len(),
        pattern.len() <= text.len() - at,
    ensures
        yes == occurs_at(text@, pattern@, at as int),
{
    let mut matched: usize = 0;
    while matched < pattern.len()
        invariant
            at <= text.len(),
            pattern.len() <= text.len() - at,
            matched <= pattern.len(),
            forall|i: int| 0 <= i < matched ==> text@[at + i] == pattern@[i],
        decreases pattern.len() - matched,
    {
        if text[at + matched] != pattern[matched] {
            assert(text@.subrange(at as int, at + pattern.len())[matched as int]
                != pattern@[matched as int]);
            return false;
        }
        matched += 1;
    }
    assert(text@.subrange(at as int, at + pattern.len()) =~= pattern@);
    true
}

/// What `comment` expects: all that follows its first `expect: `, and
/// nothing where it holds none.
pub fn parse_comment(comment: &str) -> (expected: String)
    ensures
        expected@ == expectation(comment@),
{
    let text = characters(comment);
    let pattern = characters("expect: ");
    proof {
        reveal_strlit("expect: ");
    }
    let mut at: usize = 0;
    while pattern.len() <= text.len() - at
        invariant
            at <= text.len(),
            pattern.len() == 8,
            text@ == comment@,
            pattern@ == "expect: "@,
            first_occurrence(text@, pattern@, 0) == first_occurrence(text@, pattern@, at as int),
        decreases text.len() - at,
    {
        if stands_at(&text, &pattern, at) {
            return slice(&text, at + pattern.len(), text.len());
        }
        at += 1;
    }
    String::new()
}

} // verus!
