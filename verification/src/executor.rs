//! The per-file decision: from a path to the rule that claims the file, and
//! to the task that relocates it.
use crate::config::MatchingRegexRule;
use crate::paths::{file_name, file_name_of};
use crate::task::{Task, TaskView};
use vstd::prelude::*;

verus! {

/// Whether rule `i` is the first in the list that matches `file_name`.
pub open spec fn is_first_match(
    rules: Seq<MatchingRegexRule>,
    file_name: Seq<char>,
    i: int,
) -> bool {
    &&& 0 <= i < rules.len()
    &&& rules[i].matches(file_name)
    &&& forall|j: int| 0 <= j < i ==> !(#[trigger] rules[j]).matches(file_name)
}

/// The position of the first rule that matches `file_name`, if any does.
/// A rule's place in the list is its priority.
pub open spec fn first_match(rules: Seq<MatchingRegexRule>, file_name: Seq<char>) -> Option<int> {
    if exists|i: int| is_first_match(rules, file_name, i) {
        Some(choose|i: int| is_first_match(rules, file_name, i))
    } else {
        None
    }
}

/// There is one first match at most, and `first_match` is it.
pub proof fn lemma_first_match_is(rules: Seq<MatchingRegexRule>, file_name: Seq<char>, i: int)
    requires
        is_first_match(rules, file_name, i),
    ensures
        first_match(rules, file_name) == Some(i),
{
    let chosen = choose|k: int| is_first_match(rules, file_name, k);
    assert(is_first_match(rules, file_name, chosen));
    assert(chosen == i) by {
        if chosen < i {
            assert(!rules[chosen].matches(file_name));
        } else if i < chosen {
            assert(!rules[i].matches(file_name));
        }
    }
}

/// Where a rule matches, a first rule matches at or before it.
proof fn lemma_match_has_first(rules: Seq<MatchingRegexRule>, file_name: Seq<char>, i: int)
    requires
        0 <= i < rules.len(),
        rules[i].matches(file_name),
    ensures
        exists|first: int| first <= i && is_first_match(rules, file_name, first),
    decreases i,
{
    if exists|k: int| 0 <= k < i && (#[trigger] rules[k]).matches(file_name) {
        let k = choose|k: int| 0 <= k < i && (#[trigger] rules[k]).matches(file_name);
        lemma_match_has_first(rules, file_name, k);
        let first = choose|first: int| first <= k && is_first_match(rules, file_name, first);
        assert(first <= i && is_first_match(rules, file_name, first));
    } else {
        assert(is_first_match(rules, file_name, i));
    }
}

/// No first match means that no rule matches at all, and a first match is
/// a rule that matches with none before it that does.
pub proof fn lemma_first_match_none(rules: Seq<MatchingRegexRule>, file_name: Seq<char>)
    ensures
        first_match(rules, file_name) is None <==> forall|i: int|
            0 <= i < rules.len() ==> !(#[trigger] rules[i]).matches(file_name),
        first_match(rules, file_name) matches Some(i) ==> is_first_match(rules, file_name, i),
{
    if first_match(rules, file_name) is None {
        assert forall|i: int| 0 <= i < rules.len() implies !(#[trigger] rules[i]).matches(
            file_name,
        ) by {
            if rules[i].matches(file_name) {
                lemma_match_has_first(rules, file_name, i);
            }
        }
    }
}

/// What is decided for one path.
#[derive(Debug, PartialEq, Eq)]
pub enum Decision {
    /// The path has no file name; nothing can be matched.
    NoFileName,
    /// No rule matches the file name; the file stays where it is.
    NoRule { file_name: String },
    /// A rule matches; the task relocates the file.
    Relocate(Task),
}

/// A decision over texts.
pub enum DecisionView {
    NoFileName,
    NoRule { file_name: Seq<char> },
    Relocate(TaskView),
}

impl View for Decision {
    type V = DecisionView;

    open spec fn view(&self) -> DecisionView {
        match self {
            Decision::NoFileName => DecisionView::NoFileName,
            Decision::NoRule { file_name } => DecisionView::NoRule { file_name: file_name@ },
            Decision::Relocate(task) => DecisionView::Relocate(task@),
        }
    }
}

/// The decision for `path` under `rules`: the file name of the path is
/// matched against the rules in their order, and the first rule that matches
/// gives the target directory.
pub open spec fn decision_for(
    rules: Seq<MatchingRegexRule>,
    dry_run: bool,
    path: Seq<char>,
) -> DecisionView {
    match file_name_of(path) {
        None => DecisionView::NoFileName,
        Some(file_name) => match first_match(rules, file_name) {
            None => DecisionView::NoRule { file_name },
            Some(i) => DecisionView::Relocate(
                TaskView { full_path: path, file_name, target_dir: rules[i].target@, dry_run },
            ),
        },
    }
}

/// Decides, file by file, which rule applies and what is to be done.
pub struct TaskExecutor {
    dry_run: bool,
    rules: Vec<MatchingRegexRule>,
}

impl TaskExecutor {
    /// The rules, in the order of their priority.
    pub closed spec fn rules(&self) -> Seq<MatchingRegexRule> {
        self.rules@
    }

    /// Whether moves are only simulated.
    pub closed spec fn dry_run(&self) -> bool {
        self.dry_run
    }

    /// An executor over `rules`, whose place in the list is their priority.
    pub fn new(dry_run: bool, rules: Vec<MatchingRegexRule>) -> (executor: Self)
        ensures
            executor.dry_run() == dry_run,
            executor.rules() == rules@,
    {
        Self { dry_run, rules }
    }

    /// Finds the first rule that matches `file_name`: a later rule is
    /// returned only if no earlier one matches, and none only if none
    /// matches.
    pub fn find_matching_rule(&self, file_name: &str) -> (found: Option<&MatchingRegexRule>)
        ensures
            match found {
                Some(rule) => first_match(self.rules(), file_name@) matches Some(i) && *rule
                    == self.rules()[i],
                None => first_match(self.rules(), file_name@) is None,
            },
    {
        let mut i: usize = 0;
        while i < self.rules.len()
            invariant
                i <= self.rules.len(),
                forall|j: int| 0 <= j < i ==> !(#[trigger] self.rules@[j]).matches(file_name@),
            decreases self.rules.len() - i,
        {
            if self.rules[i].regex.is_match(file_name) {
                proof {
                    lemma_first_match_is(self.rules@, file_name@, i as int);
                }
                return Some(&self.rules[i]);
            }
            i = i + 1;
        }
        None
    }

    /// Decides what is to be done with the file at `path`.
    pub fn execute(&self, path: &str) -> (decision: Decision)
        ensures
            decision@ == decision_for(self.rules(), self.dry_run(), path@),
    {
        match file_name(path) {
            None => Decision::NoFileName,
            Some(name) => match self.find_matching_rule(name.as_str()) {
                None => Decision::NoRule { file_name: name },
                Some(rule) => Decision::Relocate(
                    Task::new(String::from_str(path), name, rule.target.clone(), self.dry_run),
                ),
            },
        }
    }
}

/// Under a dry run every task that is decided on is a dry run.
pub proof fn lemma_dry_run_is_handed_on(rules: Seq<MatchingRegexRule>, path: Seq<char>)
    ensures
        decision_for(rules, true, path) matches DecisionView::Relocate(task) ==> task.dry_run,
{
}

} // verus!
