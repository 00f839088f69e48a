//! The relocation of one file: the search for a destination path that is not
//! taken, and the file operations that carry the move out.
use crate::naming::{extend, extended_name, lemma_extended_name_injective, lemma_extended_name_len};
use crate::paths::{join, joined, lemma_joined_injective};
use vstd::prelude::*;

verus! {

/// One file to relocate: where it is, what it is called, where it goes, and
/// whether the move is only simulated.
#[derive(Clone, Debug, PartialEq, Eq)]
pub struct Task {
    pub full_path: String,
    pub file_name: String,
    pub target_dir: String,
    pub dry_run: bool,
}

/// A task over texts.
pub struct TaskView {
    pub full_path: Seq<char>,
    pub file_name: Seq<char>,
    pub target_dir: Seq<char>,
    pub dry_run: bool,
}

impl View for Task {
    type V = TaskView;

    open spec fn view(&self) -> TaskView {
        TaskView {
            full_path: self.full_path@,
            file_name: self.file_name@,
            target_dir: self.target_dir@,
            dry_run: self.dry_run,
        }
    }
}

/// A change to the file system that a relocation asks for.
#[derive(Debug, PartialEq, Eq)]
pub enum FileOperation {
    /// Create every missing directory above the path `of`.
    CreateParentDirs { of: String },
    /// Rename `from` to `to` in one step.
    Rename { from: String, to: String },
}

/// A file operation over texts.
pub enum FileOperationView {
    CreateParentDirs { of: Seq<char> },
    Rename { from: Seq<char>, to: Seq<char> },
}

impl View for FileOperation {
    type V = FileOperationView;

    open spec fn view(&self) -> FileOperationView {
        match self {
            FileOperation::CreateParentDirs { of } => FileOperationView::CreateParentDirs {
                of: of@,
            },
            FileOperation::Rename { from, to } => FileOperationView::Rename {
                from: from@,
                to: to@,
            },
        }
    }
}

/// What became of a task: the destination that was found for the file, and
/// the operations that move it there, in the order in which they are to be
/// performed. Each is to be performed only if the one before it succeeded.
#[derive(Debug, PartialEq, Eq)]
pub struct Relocation {
    pub target: String,
    pub operations: Vec<FileOperation>,
}

/// How a relocation ended.
#[derive(Debug, PartialEq, Eq)]
pub enum Outcome {
    /// A dry run: nothing was done, the file would have gone from `from` to
    /// `to`.
    WouldRelocate { from: String, to: String },
    /// The file went from `from` to `to`.
    Relocated { from: String, to: String },
    /// An operation failed for the given reason; the file was left alone
    /// from there on.
    Failed { from: String, to: String, reason: String },
}

/// An outcome over texts.
pub enum OutcomeView {
    WouldRelocate { from: Seq<char>, to: Seq<char> },
    Relocated { from: Seq<char>, to: Seq<char> },
    Failed { from: Seq<char>, to: Seq<char>, reason: Seq<char> },
}

impl View for Outcome {
    type V = OutcomeView;

    open spec fn view(&self) -> OutcomeView {
        match self {
            Outcome::WouldRelocate { from, to } => OutcomeView::WouldRelocate {
                from: from@,
                to: to@,
            },
            Outcome::Relocated { from, to } => OutcomeView::Relocated { from: from@, to: to@ },
            Outcome::Failed { from, to, reason } => OutcomeView::Failed {
                from: from@,
                to: to@,
                reason: reason@,
            },
        }
    }
}

/// The outcome of a relocation from `from` to `to`. A dry run performs
/// nothing and so cannot fail; a real run ends as its operations did.
pub open spec fn outcome_of(
    dry_run: bool,
    from: Seq<char>,
    to: Seq<char>,
    failure: Option<Seq<char>>,
) -> OutcomeView {
    if dry_run {
        OutcomeView::WouldRelocate { from, to }
    } else {
        match failure {
            None => OutcomeView::Relocated { from, to },
            Some(reason) => OutcomeView::Failed { from, to, reason },
        }
    }
}

/// The views of a list of operations.
pub open spec fn operations_view(operations: Seq<FileOperation>) -> Seq<FileOperationView> {
    operations.map_values(|op: FileOperation| op@)
}

/// The operations of a move that is carried out: the directories above the
/// destination first, then the rename.
pub open spec fn move_operations(from: Seq<char>, to: Seq<char>) -> Seq<FileOperationView> {
    seq![
        FileOperationView::CreateParentDirs { of: to },
        FileOperationView::Rename { from, to },
    ]
}

/// The paths that a list holds.
pub open spec fn path_set(taken: Seq<String>) -> Set<Seq<char>> {
    taken.map_values(|path: String| path@).to_set()
}

/// An index as a mathematical value. No index stands for the name as it is,
/// the index `i` for the name with the suffix `(i)`.
pub open spec fn index_value(index: Option<i32>) -> Option<int> {
    match index {
        Some(i) => Some(i as int),
        None => None,
    }
}

/// The index that is tried `steps` collisions after `start`. After the plain
/// name comes the index 1; after an index comes the next number.
pub open spec fn advanced(start: Option<int>, steps: nat) -> Option<int> {
    if steps == 0 {
        start
    } else {
        match start {
            Some(i) => Some(i + steps),
            None => Some(steps as int),
        }
    }
}

/// The file name that is tried at `index`.
pub open spec fn candidate_name(name: Seq<char>, index: Option<int>) -> Seq<char> {
    match index {
        Some(i) => extended_name(name, i),
        None => name,
    }
}

/// The path that is tried at `index`.
pub open spec fn candidate_path(dir: Seq<char>, name: Seq<char>, index: Option<int>) -> Seq<char> {
    joined(dir, candidate_name(name, index))
}

/// Whether the search from `start` meets exactly `steps` taken paths and then
/// a free one.
pub open spec fn is_first_free(
    dir: Seq<char>,
    name: Seq<char>,
    start: Option<int>,
    taken: Set<Seq<char>>,
    steps: nat,
) -> bool {
    &&& forall|j: nat|
        j < steps ==> taken.contains(#[trigger] candidate_path(dir, name, advanced(start, j)))
    &&& !taken.contains(candidate_path(dir, name, advanced(start, steps)))
}

/// The number of collisions that the search from `start` meets.
pub open spec fn collisions(
    dir: Seq<char>,
    name: Seq<char>,
    start: Option<int>,
    taken: Set<Seq<char>>,
) -> nat {
    choose|steps: nat| is_first_free(dir, name, start, taken, steps)
}

/// The path at which the search from `start` ends: the first candidate that
/// is not taken.
pub open spec fn resolved_path(
    dir: Seq<char>,
    name: Seq<char>,
    start: Option<int>,
    taken: Set<Seq<char>>,
) -> Seq<char> {
    candidate_path(dir, name, advanced(start, collisions(dir, name, start, taken)))
}

/// The search ends in one place only: a number of collisions that is followed
/// by a free path is the number of collisions.
pub proof fn lemma_first_free_unique(
    dir: Seq<char>,
    name: Seq<char>,
    start: Option<int>,
    taken: Set<Seq<char>>,
    steps: nat,
)
    requires
        is_first_free(dir, name, start, taken, steps),
    ensures
        collisions(dir, name, start, taken) == steps,
        resolved_path(dir, name, start, taken) == candidate_path(dir, name, advanced(start, steps)),
{
    let chosen = collisions(dir, name, start, taken);
    assert(is_first_free(dir, name, start, taken, chosen));
    assert(chosen == steps) by {
        if chosen < steps {
            assert(taken.contains(candidate_path(dir, name, advanced(start, chosen))));
        } else if steps < chosen {
            assert(taken.contains(candidate_path(dir, name, advanced(start, steps))));
        }
    }
}

/// Different indexes are tried at different paths.
pub proof fn lemma_candidate_injective(
    dir: Seq<char>,
    name: Seq<char>,
    a: Option<int>,
    b: Option<int>,
)
    requires
        candidate_path(dir, name, a) == candidate_path(dir, name, b),
    ensures
        a == b,
{
    lemma_joined_injective(dir, candidate_name(name, a), candidate_name(name, b));
    match (a, b) {
        (Some(i), Some(j)) => lemma_extended_name_injective(name, i, j),
        (Some(i), None) => lemma_extended_name_len(name, i),
        (None, Some(j)) => lemma_extended_name_len(name, j),
        (None, None) => {},
    }
}

/// The search never tries a path twice.
pub proof fn lemma_probes_distinct(
    dir: Seq<char>,
    name: Seq<char>,
    start: Option<int>,
    i: nat,
    j: nat,
)
    requires
        candidate_path(dir, name, advanced(start, i)) == candidate_path(
            dir,
            name,
            advanced(start, j),
        ),
    ensures
        i == j,
{
    lemma_candidate_injective(dir, name, advanced(start, i), advanced(start, j));
}

/// The search goes on from `steps` collisions to a free path, where `seen`
/// holds the paths tried so far.
proof fn lemma_search_goes_on(
    dir: Seq<char>,
    name: Seq<char>,
    start: Option<int>,
    taken: Set<Seq<char>>,
    steps: nat,
    seen: Set<Seq<char>>,
)
    requires
        taken.finite(),
        seen.finite(),
        seen.len() == steps,
        seen.subset_of(taken),
        forall|j: nat|
            j < steps ==> seen.contains(#[trigger] candidate_path(dir, name, advanced(start, j))),
        forall|p: Seq<char>|
            seen.contains(p) ==> exists|j: nat|
                j < steps && p == #[trigger] candidate_path(dir, name, advanced(start, j)),
    ensures
        exists|total: nat| total <= taken.len() && is_first_free(dir, name, start, taken, total),
    decreases taken.len() - steps,
{
    let path = candidate_path(dir, name, advanced(start, steps));
    vstd::set_lib::lemma_len_subset(seen, taken);
    if taken.contains(path) {
        if seen.contains(path) {
            let j = choose|j: nat|
                j < steps && path == #[trigger] candidate_path(dir, name, advanced(start, j));
            lemma_probes_distinct(dir, name, start, j, steps);
        }
        let grown = seen.insert(path);
        vstd::set_lib::lemma_len_subset(grown, taken);
        assert forall|p: Seq<char>| grown.contains(p) implies exists|j: nat|
            j < steps + 1 && p == #[trigger] candidate_path(dir, name, advanced(start, j)) by {
            if p != path {
                let j = choose|j: nat|
                    j < steps && p == #[trigger] candidate_path(dir, name, advanced(start, j));
                assert(j < steps + 1);
            }
        }
        lemma_search_goes_on(dir, name, start, taken, steps + 1, grown);
    } else {
        assert(is_first_free(dir, name, start, taken, steps));
    }
}

/// Among finitely many taken paths the search always ends: it never tries a
/// path twice, so it meets no more collisions than there are taken paths.
pub proof fn lemma_search_ends(
    dir: Seq<char>,
    name: Seq<char>,
    start: Option<int>,
    taken: Set<Seq<char>>,
)
    requires
        taken.finite(),
    ensures
        is_first_free(dir, name, start, taken, collisions(dir, name, start, taken)),
        collisions(dir, name, start, taken) <= taken.len(),
        !taken.contains(resolved_path(dir, name, start, taken)),
{
    lemma_search_goes_on(dir, name, start, taken, 0, Set::empty());
    let total = choose|total: nat|
        total <= taken.len() && is_first_free(dir, name, start, taken, total);
    lemma_first_free_unique(dir, name, start, taken, total);
}

/// How destinations are numbered. A search that starts at the plain name and
/// meets no collision ends at the plain path. One that meets `steps`
/// collisions ends at the path with the suffix `(steps)`: the numbering
/// starts at `(1)` and goes up by one with each further collision. That path
/// is none of the paths that collided.
pub proof fn lemma_destination_numbering(
    dir: Seq<char>,
    name: Seq<char>,
    taken: Set<Seq<char>>,
    steps: nat,
)
    requires
        is_first_free(dir, name, None, taken, steps),
    ensures
        steps == 0 ==> resolved_path(dir, name, None, taken) == joined(dir, name),
        steps > 0 ==> resolved_path(dir, name, None, taken) == joined(
            dir,
            extended_name(name, steps as int),
        ),
        steps > 0 ==> resolved_path(dir, name, None, taken) != joined(dir, name),
        forall|j: nat|
            j < steps ==> resolved_path(dir, name, None, taken) != #[trigger] candidate_path(
                dir,
                name,
                advanced(None, j),
            ),
        !taken.contains(resolved_path(dir, name, None, taken)),
{
    lemma_first_free_unique(dir, name, None, taken, steps);
    if steps > 0 {
        assert(taken.contains(candidate_path(dir, name, advanced(None, 0))));
    }
}

/// Whether `path` is among `taken`.
pub fn is_taken(taken: &Vec<String>, path: &String) -> (found: bool)
    ensures
        found == path_set(taken@).contains(path@),
{
    let ghost texts = taken@.map_values(|p: String| p@);
    let mut i: usize = 0;
    while i < taken.len()
        invariant
            i <= taken.len(),
            texts == taken@.map_values(|p: String| p@),
            forall|j: int| 0 <= j < i ==> texts[j] != path@,
        decreases taken.len() - i,
    {
        if taken[i] == *path {
            assert(texts[i as int] == path@);
            assert(texts.contains(path@));
            return true;
        }
        i = i + 1;
    }
    false
}

impl Task {
    /// The path that the task tries at `index`.
    pub open spec fn candidate(&self, index: Option<int>) -> Seq<char> {
        candidate_path(self.target_dir@, self.file_name@, index)
    }

    /// The destination of the task when the paths in `taken` exist: the
    /// first candidate, counted from `start`, that is not among them.
    pub open spec fn destination(&self, start: Option<int>, taken: Set<Seq<char>>) -> Seq<char> {
        resolved_path(self.target_dir@, self.file_name@, start, taken)
    }

    /// A task for the file at `full_path`, called `file_name`, that is to go
    /// to `target_dir`.
    pub fn new(full_path: String, file_name: String, target_dir: String, dry_run: bool) -> (task:
        Task)
        ensures
            task@ == (TaskView {
                full_path: full_path@,
                file_name: file_name@,
                target_dir: target_dir@,
                dry_run,
            }),
    {
        Task { full_path, file_name, target_dir, dry_run }
    }

    /// Puts the suffix `(id)` into `file_name`: in front of its extension,
    /// or at its end where it has none.
    pub fn extend_file(file_name: String, id: i32) -> (extended: String)
        ensures
            extended@ == extended_name(file_name@, id as int),
    {
        extend(file_name.as_str(), id)
    }

    /// Builds the path that is tried at `index`.
    pub fn candidate_at(&self, index: Option<i32>) -> (path: String)
        ensures
            path@ == self.candidate(index_value(index)),
    {
        match index {
            Some(i) => {
                let name = extend(self.file_name.as_str(), i);
                join(self.target_dir.as_str(), name.as_str())
            },
            None => join(self.target_dir.as_str(), self.file_name.as_str()),
        }
    }

    /// Searches from `index` for a destination that is not taken. `taken`
    /// holds the paths that exist. The search cannot run out of candidates:
    /// it never tries a path twice, so it meets at most as many collisions
    /// as `taken` has entries. The index must leave room for that many
    /// steps.
    pub fn find_target_path(&self, index: Option<i32>, taken: &Vec<String>) -> (path: String)
        requires
            match index {
                Some(i) => i + taken.len() <= i32::MAX,
                None => taken.len() <= i32::MAX,
            },
        ensures
            path@ == self.destination(index_value(index), path_set(taken@)),
            !path_set(taken@).contains(path@),
    {
        let ghost dir = self.target_dir@;
        let ghost name = self.file_name@;
        let ghost start = index_value(index);
        let ghost occupied = path_set(taken@);
        let ghost total = collisions(dir, name, start, occupied);
        let ghost mut steps: nat = 0;
        proof {
            taken@.map_values(|p: String| p@).lemma_cardinality_of_set();
            lemma_search_ends(dir, name, start, occupied);
        }
        let mut index = index;
        let mut path = self.candidate_at(index);
        while is_taken(taken, &path)
            invariant
                dir == self.target_dir@,
                name == self.file_name@,
                occupied == path_set(taken@),
                total == collisions(dir, name, start, occupied),
                is_first_free(dir, name, start, occupied, total),
                steps <= total <= taken.len(),
                index_value(index) == advanced(start, steps),
                path@ == candidate_path(dir, name, advanced(start, steps)),
                match start {
                    Some(i) => i + taken.len() <= i32::MAX,
                    None => taken.len() <= i32::MAX,
                },
            decreases total - steps,
        {
            proof {
                steps = steps + 1;
            }
            index =
            match index {
                Some(i) => Some(i + 1),
                None => Some(1),
            };
            path = self.candidate_at(index);
        }
        assert(steps == total) by {
            if steps < total {
                assert(occupied.contains(candidate_path(dir, name, advanced(start, steps))));
            }
        }
        path
    }

    /// The operations that move the file to `dst`.
    pub fn move_file(&self, dst: &str) -> (operations: Vec<FileOperation>)
        ensures
            operations_view(operations@) == move_operations(self.full_path@, dst@),
    {
        let mut operations: Vec<FileOperation> = Vec::new();
        operations.push(FileOperation::CreateParentDirs { of: String::from_str(dst) });
        operations.push(
            FileOperation::Rename { from: self.full_path.clone(), to: String::from_str(dst) },
        );
        operations
    }

    /// Decides what is done with the file when the paths in `taken`
    /// exist: finds its destination and lists the operations that move the
    /// file there. A dry run finds the destination and lists no operation.
    pub fn execute(&self, taken: &Vec<String>) -> (relocation: Relocation)
        requires
            taken.len() <= i32::MAX,
        ensures
            relocation.target@ == self.destination(None, path_set(taken@)),
            !path_set(taken@).contains(relocation.target@),
            self.dry_run ==> relocation.operations@.len() == 0,
            !self.dry_run ==> operations_view(relocation.operations@) == move_operations(
                self.full_path@,
                relocation.target@,
            ),
    {
        let target = self.find_target_path(None, taken);
        let operations = if self.dry_run {
            Vec::new()
        } else {
            self.move_file(target.as_str())
        };
        Relocation { target, operations }
    }

    /// Says how the relocation to `target` ended. `failure` is the reason
    /// for which one of its operations failed, if one did.
    pub fn conclude(&self, target: &str, failure: Option<String>) -> (outcome: Outcome)
        ensures
            outcome@ == outcome_of(
                self.dry_run,
                self.full_path@,
                target@,
                match failure {
                    Some(reason) => Some(reason@),
                    None => None,
                },
            ),
    {
        let from = self.full_path.clone();
        let to = String::from_str(target);
        if self.dry_run {
            Outcome::WouldRelocate { from, to }
        } else {
            match failure {
                None => Outcome::Relocated { from, to },
                Some(reason) => Outcome::Failed { from, to, reason },
            }
        }
    }
}

} // verus!
