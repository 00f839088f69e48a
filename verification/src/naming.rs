//! Disambiguated file names: a numeric suffix in parentheses, put in front
//! of the extension.
use crate::decimal::{decimal, lemma_decimal_chars, lemma_decimal_injective, push_decimal};
use crate::text::{
    find_last, is_last_occurrence, last_occurrence, lemma_last_occurrence_is,
    lemma_last_occurrence_none,
};
use vstd::prelude::*;

verus! {

/// The suffix that carries the number `id`: `(1)`, `(2)`, ...
pub open spec fn suffix(id: int) -> Seq<char> {
    seq!['('] + decimal(id) + seq![')']
}

/// Where a suffix goes into `name`: in front of its last `.`, and at its end
/// where it has none. What follows the last `.` is the extension.
pub open spec fn split_point(name: Seq<char>) -> int {
    match last_occurrence(name, '.') {
        Some(pos) => pos,
        None => name.len() as int,
    }
}

/// `name` with the suffix for `id` put in at its split point.
pub open spec fn extended_name(name: Seq<char>, id: int) -> Seq<char> {
    name.subrange(0, split_point(name)) + suffix(id) + name.subrange(
        split_point(name),
        name.len() as int,
    )
}

/// The split point lies within the name.
pub proof fn lemma_split_point_bounds(name: Seq<char>)
    ensures
        0 <= split_point(name) <= name.len(),
        split_point(name) < name.len() ==> name[split_point(name)] == '.',
{
    lemma_last_occurrence_none(name, '.');
}

/// A suffix is at least three characters long and holds no `.`.
pub proof fn lemma_suffix_chars(id: int)
    ensures
        suffix(id).len() == decimal(id).len() + 2,
        suffix(id).len() >= 3,
        suffix(id)[0] == '(',
        suffix(id).last() == ')',
        forall|k: int| 0 <= k < suffix(id).len() ==> #[trigger] suffix(id)[k] != '.',
{
    lemma_decimal_chars(id);
    let d = decimal(id);
    assert forall|k: int| 0 <= k < suffix(id).len() implies #[trigger] suffix(id)[k] != '.' by {
        if 0 < k <= d.len() {
            assert(suffix(id)[k] == d[k - 1]);
        }
    }
}

/// The extended name is the name with the suffix inserted and nothing else
/// changed: it is longer than the name by the length of the suffix.
pub proof fn lemma_extended_name_len(name: Seq<char>, id: int)
    ensures
        extended_name(name, id).len() == name.len() + suffix(id).len(),
        extended_name(name, id) != name,
{
    lemma_split_point_bounds(name);
    lemma_suffix_chars(id);
}

/// Where the suffix stands. In a name with a `.` it stands immediately in
/// front of the last `.`, which is still the last `.` of the extended name;
/// in a name without one it stands at the end.
pub proof fn lemma_suffix_position(name: Seq<char>, id: int)
    ensures
        match last_occurrence(name, '.') {
            Some(pos) => {
                let extended = extended_name(name, id);
                let end = pos + suffix(id).len();
                &&& extended.subrange(0, pos) == name.subrange(0, pos)
                &&& extended.subrange(pos, end) == suffix(id)
                &&& extended.subrange(end, extended.len() as int) == name.subrange(
                    pos,
                    name.len() as int,
                )
                &&& last_occurrence(extended, '.') == Some(end)
            },
            None => {
                &&& extended_name(name, id) == name + suffix(id)
                &&& last_occurrence(extended_name(name, id), '.') is None
            },
        },
{
    lemma_last_occurrence_none(name, '.');
    lemma_suffix_chars(id);
    let extended = extended_name(name, id);
    let s = suffix(id);
    match last_occurrence(name, '.') {
        Some(pos) => {
            let end = pos + s.len();
            assert(extended.subrange(end, extended.len() as int) =~= name.subrange(
                pos,
                name.len() as int,
            ));
            assert(is_last_occurrence(extended, '.', end)) by {
                assert forall|j: int| end < j < extended.len() implies extended[j] != '.' by {
                    assert(extended[j] == name[j - s.len()]);
                }
            }
            lemma_last_occurrence_is(extended, '.', end);
        },
        None => {
            assert forall|j: int| 0 <= j < extended.len() implies extended[j] != '.' by {
                if j < name.len() {
                    assert(extended[j] == name[j]);
                } else {
                    assert(extended[j] == s[j - name.len()]);
                }
            }
            lemma_last_occurrence_none(extended, '.');
        },
    }
}

/// Different numbers give different extended names.
pub proof fn lemma_extended_name_injective(name: Seq<char>, a: int, b: int)
    requires
        extended_name(name, a) == extended_name(name, b),
    ensures
        a == b,
{
    lemma_split_point_bounds(name);
    lemma_suffix_chars(a);
    lemma_suffix_chars(b);
    let at = split_point(name);
    let ea = extended_name(name, a);
    let eb = extended_name(name, b);
    assert(eb.len() == name.len() + suffix(b).len());
    assert(decimal(a) =~= ea.subrange(at + 1, at + 1 + decimal(a).len()));
    assert(decimal(b) =~= eb.subrange(at + 1, at + 1 + decimal(b).len()));
    lemma_decimal_injective(a, b);
}

/// Builds the extended name.
pub fn extend(name: &str, id: i32) -> (extended: String)
    ensures
        extended@ == extended_name(name@, id as int),
{
    let len = name.unicode_len();
    let at = match find_last(name, '.') {
        Some(pos) => pos,
        None => len,
    };
    proof {
        lemma_split_point_bounds(name@);
        reveal_strlit("(");
        reveal_strlit(")");
    }
    let mut extended = String::from_str(name.substring_char(0, at));
    extended.append("(");
    push_decimal(&mut extended, id);
    extended.append(")");
    extended.append(name.substring_char(at, len));
    extended
}

} // verus!
