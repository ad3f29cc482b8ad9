//! Searching in text, character by character.

use vstd::prelude::*;
use vstd::string::*;

verus! {

/// `pattern` stands in `text` at position `at`.
pub open spec fn occurs_at(text: Seq<char>, pattern: Seq<char>, at: int) -> bool {
    &&& 0 <= at
    &&& at + pattern.len() <= text.len()
    &&& text.subrange(at, at + pattern.len()) == pattern
}

/// The first position at or after `from` where `pattern` stands in `text`.
pub open spec fn first_match(text: Seq<char>, pattern: Seq<char>, from: int) -> Option<int>
    decreases text.len() - from + 1,
{
    if from < 0 || from + pattern.len() > text.len() {
        None
    } else if occurs_at(text, pattern, from) {
        Some(from)
    } else {
        first_match(text, pattern, from + 1)
    }
}

/// Where the last stretch of `text` without a `/` begins: right after the
/// last `/`, or at `0` where there is none.
pub open spec fn segment_start(text: Seq<char>) -> int
    decreases text.len(),
{
    if text.len() == 0 || text.last() == '/' {
        text.len() as int
    } else {
        segment_start(text.drop_last())
    }
}

/// What follows the last `/` of `text`: all of it where it holds none.
pub open spec fn last_segment(text: Seq<char>) -> Seq<char> {
    text.subrange(segment_start(text), text.len() as int)
}

/// [`first_match`] finds a match, and the earliest one; where it finds
/// none, there is none from `from` on.
pub proof fn lemma_first_match_is_least(text: Seq<char>, pattern: Seq<char>, from: int)
    requires
        0 <= from,
    ensures
        match first_match(text, pattern, from) {
            Some(at) => {
                &&& from <= at
                &&& occurs_at(text, pattern, at)
                &&& forall|j: int| from <= j < at ==> !occurs_at(text, pattern, j)
            },
            None => forall|j: int| from <= j ==> !occurs_at(text, pattern, j),
        },
    decreases text.len() - from + 1,
{
    if from + pattern.len() <= text.len() && !occurs_at(text, pattern, from) {
        lemma_first_match_is_least(text, pattern, from + 1);
    }
}

/// The last segment holds no `/`, and a `/` stands right before it unless
/// it begins the text.
pub proof fn lemma_last_segment_is_last(text: Seq<char>)
    ensures
        0 <= segment_start(text) <= text.len(),
        segment_start(text) == 0 || text[segment_start(text) - 1] == '/',
        forall|j: int| segment_start(text) <= j < text.len() ==> text[j] != '/',
    decreases text.len(),
{
    if text.len() > 0 && text.last() != '/' {
        let shorter = text.drop_last();
        lemma_last_segment_is_last(shorter);
        assert forall|j: int| segment_start(text) <= j < text.len() implies text[j] != '/' by {
            if j < shorter.len() {
                assert(text[j] == shorter[j]);
            }
        }
    }
}

/// The characters of `text`, one by one.
pub fn chars_of(text: &str) -> (chars: Vec<char>)
    ensures
        chars@ == text@,
{
    let mut chars: Vec<char> = Vec::new();
    for c in it: text.chars()
        invariant
            it.seq() == text@,
            chars@ == it.seq().take(it.index() as int),
    {
        chars.push(c);
        assert(it.seq().take(it.index() + 1) =~= it.seq().take(it.index() as int).push(c));
    }
    assert(chars@ =~= text@);
    chars
}

/// Whether `pattern` stands in `text` at `at`.
pub fn matches_at(text: &Vec<char>, pattern: &Vec<char>, at: usize) -> (hit: bool)
    ensures
        hit == occurs_at(text@, pattern@, at as int),
{
    let length: usize = text.len();
    if at > length || pattern.len() > length - at {
        return false;
    }
    let ghost window = text@.subrange(at as int, at + pattern@.len());
    let mut j: usize = 0;
    while j < pattern.len()
        invariant
            j <= pattern@.len(),
            at + pattern@.len() <= text@.len() == length,
            window == text@.subrange(at as int, at + pattern@.len()),
            forall|i: int| 0 <= i < j ==> text@[at + i] == pattern@[i],
        decreases pattern@.len() - j,
    {
        if text[at + j] != pattern[j] {
            assert(window[j as int] != pattern@[j as int]);
            return false;
        }
        j = j + 1;
    }
    assert(window =~= pattern@);
    true
}

/// The first position at or after `from` where `pattern` stands in `text`.
pub fn find(text: &Vec<char>, pattern: &Vec<char>, from: usize) -> (found: Option<usize>)
    ensures
        match found {
            Some(at) => first_match(text@, pattern@, from as int) == Some(at as int),
            None => first_match(text@, pattern@, from as int) is None,
        },
{
    if pattern.len() > text.len() || from > text.len() - pattern.len() {
        return None;
    }
    let limit: usize = text.len() - pattern.len();
    let mut at: usize = from;
    loop
        invariant
            from <= at <= limit,
            limit + pattern@.len() == text@.len(),
            first_match(text@, pattern@, from as int) == first_match(text@, pattern@, at as int),
        decreases limit - at,
    {
        if matches_at(text, pattern, at) {
            return Some(at);
        }
        if at == limit {
            assert(first_match(text@, pattern@, at + 1) is None);
            return None;
        }
        at = at + 1;
    }
}

/// Where the last segment of `text` begins.
pub fn find_segment_start(text: &Vec<char>) -> (start: usize)
    ensures
        start == segment_start(text@),
{
    let mut start: usize = text.len();
    assert(text@.subrange(0, start as int) =~= text@);
    while start > 0 && text[start - 1] != '/'
        invariant
            start <= text@.len(),
            segment_start(text@) == segment_start(text@.subrange(0, start as int)),
        decreases start,
    {
        assert(text@.subrange(0, start as int).drop_last() =~= text@.subrange(0, start - 1));
        start = start - 1;
    }
    start
}

} // verus!
