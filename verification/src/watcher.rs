//! The orchestrator: one sweep over what the source directory holds, then
//! the reaction to each file that is created in it.
use crate::config::{Config, CoreProperties, MatchingRegexRule};
use crate::executor::{decision_for, Decision, DecisionView, TaskExecutor};
use vstd::prelude::*;

verus! {

/// What kind of entry a walk of the source directory came upon.
#[derive(Debug, PartialEq, Eq)]
pub enum EntryKind {
    File,
    Directory,
    Symlink,
    Other,
    /// The walk could not read the entry.
    Unreadable,
}

/// One entry of a walk of the source directory.
#[derive(Debug, PartialEq, Eq)]
pub struct SourceEntry {
    pub path: String,
    pub kind: EntryKind,
}

/// What was created, as far as the notification tells.
#[derive(Debug, PartialEq, Eq)]
pub enum CreateKind {
    Any,
    File,
    Folder,
    Other,
}

/// What a change notification is about.
#[derive(Debug, PartialEq, Eq)]
pub enum EventKind {
    Any,
    Access,
    Create(CreateKind),
    Modify,
    Remove,
    Other,
}

/// A path that a notification names, and whether it was found to exist when
/// the notification was delivered.
#[derive(Debug, PartialEq, Eq)]
pub struct ObservedPath {
    pub path: String,
    pub exists: bool,
}

/// A change notification from the source directory.
#[derive(Debug, PartialEq, Eq)]
pub struct WatchEvent {
    pub kind: EventKind,
    pub paths: Vec<ObservedPath>,
}

/// What reaches the orchestrator.
#[derive(Debug, PartialEq, Eq)]
pub enum Signal {
    /// The walk of the source directory, in the order of the walk.
    Walked(Vec<SourceEntry>),
    /// A change notification.
    Changed(WatchEvent),
    /// The subscription was closed or failed.
    Ended,
}

/// Where the orchestrator stands. It starts in `Sweep`, goes on to `Watch`
/// when the walk has been taken in, and ends in `Stopped`; it never goes
/// back.
#[derive(Clone, Copy, Debug, PartialEq, Eq, Structural)]
pub enum Phase {
    Sweep,
    Watch,
    Stopped,
}

/// A file that is due, with what was decided for it.
#[derive(Debug, PartialEq, Eq)]
pub struct Pending {
    pub path: String,
    pub decision: Decision,
}

/// A pending file over texts.
pub struct PendingView {
    pub path: Seq<char>,
    pub decision: DecisionView,
}

impl View for Pending {
    type V = PendingView;

    open spec fn view(&self) -> PendingView {
        PendingView { path: self.path@, decision: self.decision@ }
    }
}

/// The views of a list of pending files.
pub open spec fn pending_view(pending: Seq<Pending>) -> Seq<PendingView> {
    pending.map_values(|p: Pending| p@)
}

/// The file at `path` with its decision.
pub open spec fn pending_for(
    rules: Seq<MatchingRegexRule>,
    dry_run: bool,
    path: Seq<char>,
) -> PendingView {
    PendingView { path, decision: decision_for(rules, dry_run, path) }
}

/// The entries that a sweep takes up: regular files.
pub open spec fn is_regular_file() -> spec_fn(SourceEntry) -> bool {
    |e: SourceEntry| e.kind is File
}

/// An entry's path with its decision.
pub open spec fn entry_pending(rules: Seq<MatchingRegexRule>, dry_run: bool) -> spec_fn(
    SourceEntry,
) -> PendingView {
    |e: SourceEntry| pending_for(rules, dry_run, e.path@)
}

/// What a sweep makes due: the regular files of the walk, each once and in
/// the order of the walk. Directories and all other entries are passed over.
pub open spec fn swept(
    rules: Seq<MatchingRegexRule>,
    dry_run: bool,
    entries: Seq<SourceEntry>,
) -> Seq<PendingView> {
    entries.filter(is_regular_file()).map_values(entry_pending(rules, dry_run))
}

/// Whether a notification reports that a regular file was created.
pub open spec fn is_file_creation(kind: EventKind) -> bool {
    kind matches EventKind::Create(created) && created is File
}

/// The paths that a notification is followed up for: those that exist.
pub open spec fn is_present() -> spec_fn(ObservedPath) -> bool {
    |p: ObservedPath| p.exists
}

/// An observed path with its decision.
pub open spec fn observed_pending(rules: Seq<MatchingRegexRule>, dry_run: bool) -> spec_fn(
    ObservedPath,
) -> PendingView {
    |p: ObservedPath| pending_for(rules, dry_run, p.path@)
}

/// What a notification makes due: the paths of a file creation that were
/// found to exist, in their order. Every other notification makes nothing
/// due.
pub open spec fn created(
    rules: Seq<MatchingRegexRule>,
    dry_run: bool,
    event: WatchEvent,
) -> Seq<PendingView> {
    if is_file_creation(event.kind) {
        event.paths@.filter(is_present()).map_values(observed_pending(rules, dry_run))
    } else {
        Seq::empty()
    }
}

/// The phase that follows when `signal` arrives in `phase`.
pub open spec fn next_phase(phase: Phase, signal: Signal) -> Phase {
    match (phase, signal) {
        (_, Signal::Ended) => Phase::Stopped,
        (Phase::Sweep, Signal::Walked(_)) => Phase::Watch,
        _ => phase,
    }
}

/// What becomes due when `signal` arrives in `phase`. A walk counts in the
/// sweep phase only and a notification in the watch phase only.
pub open spec fn due(
    rules: Seq<MatchingRegexRule>,
    dry_run: bool,
    phase: Phase,
    signal: Signal,
) -> Seq<PendingView> {
    match (phase, signal) {
        (Phase::Sweep, Signal::Walked(entries)) => swept(rules, dry_run, entries@),
        (Phase::Watch, Signal::Changed(event)) => created(rules, dry_run, event),
        _ => Seq::empty(),
    }
}

/// The pending files with the path `path`.
pub open spec fn has_path(path: Seq<char>) -> spec_fn(PendingView) -> bool {
    |p: PendingView| p.path == path
}

/// The regular files of a walk with the path `path`.
pub open spec fn is_regular_file_at(path: Seq<char>) -> spec_fn(SourceEntry) -> bool {
    |e: SourceEntry| e.kind is File && e.path@ == path
}

/// The present paths of a notification that are `path`.
pub open spec fn is_present_at(path: Seq<char>) -> spec_fn(ObservedPath) -> bool {
    |p: ObservedPath| p.exists && p.path@ == path
}

/// Filtering, deciding and then picking by path counts what picking by both
/// at once counts.
proof fn lemma_due_count<A>(
    items: Seq<A>,
    keep: spec_fn(A) -> bool,
    decide: spec_fn(A) -> PendingView,
    wanted: spec_fn(PendingView) -> bool,
    both: spec_fn(A) -> bool,
)
    requires
        forall|a: A| #[trigger] both(a) == (keep(a) && wanted(decide(a))),
    ensures
        items.filter(keep).map_values(decide).filter(wanted).len() == items.filter(both).len(),
    decreases items.len(),
{
    if items.len() > 0 {
        let front = items.drop_last();
        let last = items.last();
        assert(items =~= front.push(last));
        lemma_due_count(front, keep, decide, wanted, both);
        front.lemma_filter_push(last, keep);
        front.lemma_filter_push(last, both);
        if keep(last) {
            front.filter(keep).lemma_push_map_commute(decide, last);
            front.filter(keep).map_values(decide).lemma_filter_push(decide(last), wanted);
        }
    }
}

/// A sweep makes each regular file due exactly as often as the walk holds
/// it: a file that the walk came upon once is due once, and a path that the
/// walk did not come upon as a regular file is not due at all.
pub proof fn lemma_swept_as_often_as_walked(
    rules: Seq<MatchingRegexRule>,
    dry_run: bool,
    entries: Seq<SourceEntry>,
    path: Seq<char>,
)
    ensures
        swept(rules, dry_run, entries).filter(has_path(path)).len() == entries.filter(
            is_regular_file_at(path),
        ).len(),
{
    lemma_due_count(
        entries,
        is_regular_file(),
        entry_pending(rules, dry_run),
        has_path(path),
        is_regular_file_at(path),
    );
}

/// A file creation makes each of its paths that exists due exactly as often
/// as the notification names it.
pub proof fn lemma_created_as_often_as_named(
    rules: Seq<MatchingRegexRule>,
    dry_run: bool,
    event: WatchEvent,
    path: Seq<char>,
)
    requires
        is_file_creation(event.kind),
    ensures
        created(rules, dry_run, event).filter(has_path(path)).len() == event.paths@.filter(
            is_present_at(path),
        ).len(),
{
    lemma_due_count(
        event.paths@,
        is_present(),
        observed_pending(rules, dry_run),
        has_path(path),
        is_present_at(path),
    );
}

/// How far a phase is along the way from the sweep to the end.
pub open spec fn phase_rank(phase: Phase) -> int {
    match phase {
        Phase::Sweep => 0,
        Phase::Watch => 1,
        Phase::Stopped => 2,
    }
}

/// The phases follow one another in one direction: no signal leads back to
/// an earlier phase.
pub proof fn lemma_phase_never_goes_back(phase: Phase, signal: Signal)
    ensures
        phase_rank(next_phase(phase, signal)) >= phase_rank(phase),
{
}

/// A walk is swept once. Whatever the phase, once a walk has arrived a
/// further walk makes nothing due.
pub proof fn lemma_walk_is_swept_once(
    rules: Seq<MatchingRegexRule>,
    dry_run: bool,
    phase: Phase,
    first: Vec<SourceEntry>,
    second: Vec<SourceEntry>,
)
    ensures
        due(rules, dry_run, next_phase(phase, Signal::Walked(first)), Signal::Walked(second))
            == Seq::<PendingView>::empty(),
{
}

/// The two phases share no work: a notification makes nothing due in the
/// sweep phase, nor a walk in the watch phase, and nothing is due once the
/// orchestrator has stopped.
pub proof fn lemma_phases_share_no_work(
    rules: Seq<MatchingRegexRule>,
    dry_run: bool,
    signal: Signal,
)
    ensures
        signal is Changed ==> due(rules, dry_run, Phase::Sweep, signal) == Seq::<
            PendingView,
        >::empty(),
        signal is Walked ==> due(rules, dry_run, Phase::Watch, signal) == Seq::<
            PendingView,
        >::empty(),
        due(rules, dry_run, Phase::Stopped, signal) == Seq::<PendingView>::empty(),
{
}

/// Under a dry run every task that becomes due is a dry run, whatever the
/// phase and the signal.
pub proof fn lemma_dry_run_reaches_every_task(
    rules: Seq<MatchingRegexRule>,
    phase: Phase,
    signal: Signal,
    i: int,
)
    requires
        0 <= i < due(rules, true, phase, signal).len(),
    ensures
        due(rules, true, phase, signal)[i].decision matches DecisionView::Relocate(task)
            ==> task.dry_run,
{
}

/// The orchestrator of the pipeline.
pub struct CustomWatcher {
    properties: CoreProperties,
    task_executor: TaskExecutor,
    phase: Phase,
}

impl CustomWatcher {
    /// The properties that the orchestrator was made with.
    pub closed spec fn properties(&self) -> CoreProperties {
        self.properties
    }

    /// The rules that files are matched against.
    pub closed spec fn rules(&self) -> Seq<MatchingRegexRule> {
        self.task_executor.rules()
    }

    /// Whether moves are only simulated.
    pub closed spec fn dry_run(&self) -> bool {
        self.task_executor.dry_run()
    }

    /// The phase in which the orchestrator stands.
    pub closed spec fn phase(&self) -> Phase {
        self.phase
    }

    /// An orchestrator in the sweep phase, with the rules and the dry-run
    /// setting of `config`.
    pub fn new(config: Config) -> (watcher: Self)
        ensures
            watcher.properties() == config.config,
            watcher.rules() == config.rules@,
            watcher.dry_run() == config.config.dry_run,
            watcher.phase() == Phase::Sweep,
    {
        let properties = config.config;
        let dry_run = properties.dry_run;
        let rules = config.rules;
        CustomWatcher {
            properties,
            task_executor: TaskExecutor::new(dry_run, rules),
            phase: Phase::Sweep,
        }
    }

    /// The directory that is swept and watched.
    pub fn source_dir(&self) -> (dir: &str)
        ensures
            dir@ == self.properties().source_dir@,
    {
        self.properties.source_dir.as_str()
    }

    /// The phase in which the orchestrator stands.
    pub fn current_phase(&self) -> (phase: Phase)
        ensures
            phase == self.phase(),
    {
        self.phase
    }

    /// Takes in the walk of the source directory: decides for every regular
    /// file in it, in the order of the walk.
    pub fn run_initial_clean_up(&self, entries: &Vec<SourceEntry>) -> (pending: Vec<Pending>)
        ensures
            pending_view(pending@) == swept(self.rules(), self.dry_run(), entries@),
    {
        let ghost keep = is_regular_file();
        let ghost decide = entry_pending(self.rules(), self.dry_run());
        let mut pending: Vec<Pending> = Vec::new();
        let mut i: usize = 0;
        while i < entries.len()
            invariant
                i <= entries.len(),
                keep == is_regular_file(),
                decide == entry_pending(self.rules(), self.dry_run()),
                pending_view(pending@) == entries@.take(i as int).filter(keep).map_values(decide),
            decreases entries.len() - i,
        {
            let entry = &entries[i];
            let ghost kept = entries@.take(i as int).filter(keep);
            let ghost before = pending@;
            proof {
                assert(entries@.take(i + 1) =~= entries@.take(i as int).push(*entry));
                entries@.take(i as int).lemma_filter_push(*entry, keep);
            }
            if let EntryKind::File = entry.kind {
                let decision = self.task_executor.execute(entry.path.as_str());
                pending.push(Pending { path: entry.path.clone(), decision });
                proof {
                    assert(pending_view(pending@) =~= pending_view(before).push(decide(*entry)));
                    assert(kept.push(*entry).map_values(decide) =~= kept.map_values(decide).push(
                        decide(*entry),
                    ));
                }
            }
            i = i + 1;
        }
        assert(entries@.take(i as int) =~= entries@);
        pending
    }

    /// Takes in one notification: decides for every path of a file creation
    /// that was found to exist.
    pub fn handle_event(&self, event: &WatchEvent) -> (pending: Vec<Pending>)
        ensures
            pending_view(pending@) == created(self.rules(), self.dry_run(), *event),
    {
        let mut pending: Vec<Pending> = Vec::new();
        match event.kind {
            EventKind::Create(CreateKind::File) => {},
            _ => {
                return pending;
            },
        }
        let ghost keep = is_present();
        let ghost decide = observed_pending(self.rules(), self.dry_run());
        let mut i: usize = 0;
        while i < event.paths.len()
            invariant
                i <= event.paths.len(),
                keep == is_present(),
                decide == observed_pending(self.rules(), self.dry_run()),
                pending_view(pending@) == event.paths@.take(i as int).filter(keep).map_values(
                    decide,
                ),
            decreases event.paths.len() - i,
        {
            let observed = &event.paths[i];
            let ghost kept = event.paths@.take(i as int).filter(keep);
            let ghost before = pending@;
            proof {
                assert(event.paths@.take(i + 1) =~= event.paths@.take(i as int).push(*observed));
                event.paths@.take(i as int).lemma_filter_push(*observed, keep);
            }
            if observed.exists {
                let decision = self.task_executor.execute(observed.path.as_str());
                pending.push(Pending { path: observed.path.clone(), decision });
                proof {
                    assert(pending_view(pending@) =~= pending_view(before).push(
                        decide(*observed),
                    ));
                    assert(kept.push(*observed).map_values(decide) =~= kept.map_values(
                        decide,
                    ).push(decide(*observed)));
                }
            }
            i = i + 1;
        }
        assert(event.paths@.take(i as int) =~= event.paths@);
        pending
    }

    /// Takes in one signal and says which files are due. The walk is swept
    /// in the sweep phase, which it ends; notifications count from then on,
    /// until the subscription ends.
    pub fn watch(&mut self, signal: &Signal) -> (pending: Vec<Pending>)
        ensures
            final(self).phase() == next_phase(old(self).phase(), *signal),
            final(self).properties() == old(self).properties(),
            final(self).rules() == old(self).rules(),
            final(self).dry_run() == old(self).dry_run(),
            pending_view(pending@) == due(
                old(self).rules(),
                old(self).dry_run(),
                old(self).phase(),
                *signal,
            ),
    {
        match signal {
            Signal::Ended => {
                self.phase = Phase::Stopped;
                Vec::new()
            },
            Signal::Walked(entries) => {
                if self.phase == Phase::Sweep {
                    self.phase = Phase::Watch;
                    self.run_initial_clean_up(entries)
                } else {
                    Vec::new()
                }
            },
            Signal::Changed(event) => {
                if self.phase == Phase::Watch {
                    self.handle_event(event)
                } else {
                    Vec::new()
                }
            },
        }
    }
}

} // verus!
