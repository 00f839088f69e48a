//! Searching a text for the last occurrence of a character.
use vstd::prelude::*;

verus! {

/// Whether `pos` is where `c` occurs last in `text`.
pub open spec fn is_last_occurrence(text: Seq<char>, c: char, pos: int) -> bool {
    &&& 0 <= pos < text.len()
    &&& text[pos] == c
    &&& forall|j: int| pos < j < text.len() ==> text[j] != c
}

/// The position at which `c` occurs last in `text`, if it occurs at all.
pub open spec fn last_occurrence(text: Seq<char>, c: char) -> Option<int> {
    if exists|pos: int| is_last_occurrence(text, c, pos) {
        Some(choose|pos: int| is_last_occurrence(text, c, pos))
    } else {
        None
    }
}

/// A character has at most one last occurrence, and `last_occurrence` is it.
pub proof fn lemma_last_occurrence_is(text: Seq<char>, c: char, pos: int)
    requires
        is_last_occurrence(text, c, pos),
    ensures
        last_occurrence(text, c) == Some(pos),
{
    let chosen = choose|p: int| is_last_occurrence(text, c, p);
    assert(is_last_occurrence(text, c, chosen));
    assert(chosen == pos) by {
        if chosen < pos {
            assert(text[pos] != c);
        } else if pos < chosen {
            assert(text[chosen] != c);
        }
    }
}

/// A text without the character has no last occurrence of it, and the other
/// way round.
pub proof fn lemma_last_occurrence_none(text: Seq<char>, c: char)
    ensures
        last_occurrence(text, c) is None <==> forall|j: int|
            0 <= j < text.len() ==> text[j] != c,
        last_occurrence(text, c) matches Some(pos) ==> is_last_occurrence(text, c, pos),
{
    if last_occurrence(text, c) is None {
        assert forall|j: int| 0 <= j < text.len() implies text[j] != c by {
            if text[j] == c {
                lemma_occurrence_has_last(text, c, j);
            }
        }
    }
}

/// Where a character occurs, it occurs last somewhere at or after that place.
proof fn lemma_occurrence_has_last(text: Seq<char>, c: char, j: int)
    requires
        0 <= j < text.len(),
        text[j] == c,
    ensures
        exists|pos: int| j <= pos && is_last_occurrence(text, c, pos),
    decreases text.len() - j,
{
    if exists|k: int| j < k < text.len() && text[k] == c {
        let k = choose|k: int| j < k < text.len() && text[k] == c;
        lemma_occurrence_has_last(text, c, k);
        let pos = choose|pos: int| k <= pos && is_last_occurrence(text, c, pos);
        assert(j <= pos && is_last_occurrence(text, c, pos));
    } else {
        assert(is_last_occurrence(text, c, j));
    }
}

/// Finds where `c` occurs last in `text`, counting in characters.
pub fn find_last(text: &str, c: char) -> (found: Option<usize>)
    ensures
        match found {
            Some(pos) => last_occurrence(text@, c) == Some(pos as int),
            None => last_occurrence(text@, c) is None,
        },
{
    broadcast use vstd::string::group_string_axioms;

    let len = text.unicode_len();
    let mut found: Option<usize> = None;
    let mut i: usize = 0;
    for ch in it: text.chars()
        invariant
            i == it.index(),
            it.seq() == text@,
            len == text@.len(),
            match found {
                Some(pos) => pos < i && is_last_occurrence(
                    text@.subrange(0, i as int),
                    c,
                    pos as int,
                ),
                None => forall|j: int| 0 <= j < i ==> text@[j] != c,
            },
    {
        if ch == c {
            found = Some(i);
        }
        i = i + 1;
    }
    proof {
        assert(text@.subrange(0, len as int) =~= text@);
        match found {
            Some(pos) => lemma_last_occurrence_is(text@, c, pos as int),
            None => lemma_last_occurrence_none(text@, c),
        }
    }
    found
}

} // verus!
