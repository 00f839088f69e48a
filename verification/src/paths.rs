//! Paths as texts with `/` between their components.
use crate::text::{find_last, last_occurrence, lemma_last_occurrence_none};
use vstd::prelude::*;

verus! {

/// The path of `name` inside `dir`. An empty `dir` stands for the current
/// directory, so the path is then `name` alone; a `dir` that already ends
/// in `/` gets no second separator.
pub open spec fn joined(dir: Seq<char>, name: Seq<char>) -> Seq<char> {
    if dir.len() == 0 || dir.last() == '/' {
        dir + name
    } else {
        dir + seq!['/'] + name
    }
}

/// What `joined` puts in front of the name.
pub open spec fn joined_prefix(dir: Seq<char>) -> Seq<char> {
    if dir.len() == 0 || dir.last() == '/' {
        dir
    } else {
        dir + seq!['/']
    }
}

/// Within one directory, different names have different paths.
pub proof fn lemma_joined_injective(dir: Seq<char>, a: Seq<char>, b: Seq<char>)
    requires
        joined(dir, a) == joined(dir, b),
    ensures
        a == b,
{
    let prefix = joined_prefix(dir);
    assert(joined(dir, a) =~= prefix + a);
    assert(joined(dir, b) =~= prefix + b);
    assert(a =~= (prefix + a).subrange(prefix.len() as int, (prefix + a).len() as int));
    assert(b =~= (prefix + b).subrange(prefix.len() as int, (prefix + b).len() as int));
}

/// Where the last component of `path` begins: behind its last `/`.
pub open spec fn last_component_start(path: Seq<char>) -> int {
    match last_occurrence(path, '/') {
        Some(pos) => pos + 1,
        None => 0,
    }
}

/// Whether `name` can name a file: it is not empty and is neither of the
/// directory names `.` and `..`.
pub open spec fn names_a_file(name: Seq<char>) -> bool {
    &&& name.len() > 0
    &&& name != seq!['.']
    &&& name != seq!['.', '.']
}

/// The file name of `path`: its last component, unless that cannot name a
/// file.
pub open spec fn file_name_of(path: Seq<char>) -> Option<Seq<char>> {
    let name = path.subrange(last_component_start(path), path.len() as int);
    if names_a_file(name) {
        Some(name)
    } else {
        None
    }
}

/// A file name holds no `/`, and the path ends with it.
pub proof fn lemma_file_name_is_last_component(path: Seq<char>)
    ensures
        file_name_of(path) matches Some(name) ==> {
            &&& name.len() <= path.len()
            &&& name == path.subrange(path.len() - name.len(), path.len() as int)
            &&& forall|j: int| 0 <= j < name.len() ==> name[j] != '/'
            &&& (path.len() > name.len() ==> path[path.len() - name.len() - 1] == '/')
        },
{
    lemma_last_occurrence_none(path, '/');
}

/// Builds the path of `name` inside `dir`.
pub fn join(dir: &str, name: &str) -> (path: String)
    ensures
        path@ == joined(dir@, name@),
{
    let len = dir.unicode_len();
    let mut path = String::from_str(dir);
    if len > 0 && dir.get_char(len - 1) != '/' {
        proof {
            reveal_strlit("/");
        }
        path.append("/");
    }
    path.append(name);
    path
}

/// Extracts the file name of `path`, if it has one.
pub fn file_name(path: &str) -> (name: Option<String>)
    ensures
        match name {
            Some(n) => file_name_of(path@) == Some(n@),
            None => file_name_of(path@) is None,
        },
{
    let len = path.unicode_len();
    let start = match find_last(path, '/') {
        Some(pos) => pos + 1,
        None => 0,
    };
    let name = path.substring_char(start, len);
    let count = len - start;
    if count == 0 {
        return None;
    }
    if name.get_char(0) == '.' {
        if count == 1 {
            assert(name@ =~= seq!['.']);
            return None;
        }
        if count == 2 && name.get_char(1) == '.' {
            assert(name@ =~= seq!['.', '.']);
            return None;
        }
    }
    assert(name@ != seq!['.'] && name@ != seq!['.', '.']) by {
        if name@ == seq!['.'] || name@ == seq!['.', '.'] {
            assert(name@[0] == '.');
            assert(name@.len() == 2 ==> name@[1] == '.');
        }
    }
    Some(String::from_str(name))
}

} // verus!
