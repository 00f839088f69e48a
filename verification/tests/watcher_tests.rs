use reg_sort::config::{Config, CoreProperties, FileConfig, MatchingRule};
use reg_sort::executor::Decision;
use reg_sort::task::Task;
use reg_sort::watcher::{
    CreateKind, CustomWatcher, EntryKind, EventKind, ObservedPath, Pending, Phase, Signal,
    SourceEntry, WatchEvent,
};

fn watcher(dry_run: bool) -> CustomWatcher {
    let file_config = FileConfig {
        config: CoreProperties { source_dir: "in".to_string(), log: false, dry_run },
        rules: vec![
            MatchingRule { pattern: r"\.txt$".to_string(), target: "out/txt".to_string() },
            MatchingRule { pattern: r"\.csv$".to_string(), target: "out/csv".to_string() },
        ],
    };
    CustomWatcher::new(Config::from_file(file_config, true).unwrap())
}

fn entry(path: &str, kind: EntryKind) -> SourceEntry {
    SourceEntry { path: path.to_string(), kind }
}

fn observed(path: &str, exists: bool) -> ObservedPath {
    ObservedPath { path: path.to_string(), exists }
}

fn created_file(paths: Vec<ObservedPath>) -> Signal {
    Signal::Changed(WatchEvent { kind: EventKind::Create(CreateKind::File), paths })
}

fn relocate(path: &str, file_name: &str, target_dir: &str, dry_run: bool) -> Pending {
    Pending {
        path: path.to_string(),
        decision: Decision::Relocate(Task::new(
            path.to_string(),
            file_name.to_string(),
            target_dir.to_string(),
            dry_run,
        )),
    }
}

fn no_rule(path: &str, file_name: &str) -> Pending {
    Pending {
        path: path.to_string(),
        decision: Decision::NoRule { file_name: file_name.to_string() },
    }
}

fn walk() -> Vec<SourceEntry> {
    vec![
        entry("in", EntryKind::Directory),
        entry("in/b.txt", EntryKind::File),
        entry("in/sub", EntryKind::Directory),
        entry("in/sub/a.csv", EntryKind::File),
        entry("in/link.txt", EntryKind::Symlink),
        entry("in/pipe.txt", EntryKind::Other),
        entry("", EntryKind::Unreadable),
        entry("in/notes", EntryKind::File),
        entry("in/sub/b.txt", EntryKind::File),
    ]
}

#[test]
fn new_watcher_starts_in_the_sweep_phase() {
    let watcher = watcher(false);
    assert_eq!(watcher.current_phase(), Phase::Sweep);
    assert_eq!(watcher.source_dir(), "in");
}

#[test]
fn sweep_takes_up_the_regular_files_in_the_order_of_the_walk() {
    let watcher = watcher(false);
    let pending = watcher.run_initial_clean_up(&walk());
    assert_eq!(
        pending,
        vec![
            relocate("in/b.txt", "b.txt", "out/txt", false),
            relocate("in/sub/a.csv", "a.csv", "out/csv", false),
            no_rule("in/notes", "notes"),
            relocate("in/sub/b.txt", "b.txt", "out/txt", false),
        ]
    );
}

#[test]
fn sweep_of_an_empty_walk_makes_nothing_due() {
    let watcher = watcher(false);
    assert!(watcher.run_initial_clean_up(&Vec::new()).is_empty());
    let only_directories =
        vec![entry("in", EntryKind::Directory), entry("in/sub", EntryKind::Directory)];
    assert!(watcher.run_initial_clean_up(&only_directories).is_empty());
}

#[test]
fn file_that_occurs_once_in_the_walk_is_due_once() {
    let watcher = watcher(false);
    let pending = watcher.run_initial_clean_up(&walk());
    for entry in walk() {
        let count = pending.iter().filter(|p| p.path == entry.path).count();
        assert_eq!(count, if entry.kind == EntryKind::File { 1 } else { 0 });
    }
}

#[test]
fn walk_moves_the_watcher_on_to_the_watch_phase() {
    let mut watcher = watcher(false);
    let pending = watcher.watch(&Signal::Walked(walk()));
    assert_eq!(pending.len(), 4);
    assert_eq!(watcher.current_phase(), Phase::Watch);
}

#[test]
fn second_walk_makes_nothing_due() {
    let mut watcher = watcher(false);
    watcher.watch(&Signal::Walked(walk()));
    assert!(watcher.watch(&Signal::Walked(walk())).is_empty());
    assert_eq!(watcher.current_phase(), Phase::Watch);
}

#[test]
fn notification_before_the_sweep_makes_nothing_due() {
    let mut watcher = watcher(false);
    let pending = watcher.watch(&created_file(vec![observed("in/a.txt", true)]));
    assert!(pending.is_empty());
    assert_eq!(watcher.current_phase(), Phase::Sweep);
}

#[test]
fn created_file_is_due_in_the_watch_phase() {
    let mut watcher = watcher(false);
    watcher.watch(&Signal::Walked(Vec::new()));
    let pending = watcher.watch(&created_file(vec![observed("in/new.txt", true)]));
    assert_eq!(pending, vec![relocate("in/new.txt", "new.txt", "out/txt", false)]);
    assert_eq!(watcher.current_phase(), Phase::Watch);
}

#[test]
fn created_file_that_is_gone_is_passed_over() {
    let watcher = watcher(false);
    let event = WatchEvent {
        kind: EventKind::Create(CreateKind::File),
        paths: vec![
            observed("in/gone.txt", false),
            observed("in/here.csv", true),
            observed("in/also-gone.csv", false),
            observed("in/notes", true),
        ],
    };
    assert_eq!(
        watcher.handle_event(&event),
        vec![relocate("in/here.csv", "here.csv", "out/csv", false), no_rule("in/notes", "notes")]
    );
}

#[test]
fn only_file_creations_are_followed_up() {
    let watcher = watcher(false);
    let kinds = vec![
        EventKind::Any,
        EventKind::Access,
        EventKind::Create(CreateKind::Any),
        EventKind::Create(CreateKind::Folder),
        EventKind::Create(CreateKind::Other),
        EventKind::Modify,
        EventKind::Remove,
        EventKind::Other,
    ];
    for kind in kinds {
        let event = WatchEvent { kind, paths: vec![observed("in/a.txt", true)] };
        assert!(watcher.handle_event(&event).is_empty());
    }
    let event = WatchEvent {
        kind: EventKind::Create(CreateKind::File),
        paths: vec![observed("in/a.txt", true)],
    };
    assert_eq!(watcher.handle_event(&event).len(), 1);
}

#[test]
fn end_of_the_subscription_stops_the_watcher() {
    let mut watcher = watcher(false);
    watcher.watch(&Signal::Walked(Vec::new()));
    assert!(watcher.watch(&Signal::Ended).is_empty());
    assert_eq!(watcher.current_phase(), Phase::Stopped);
    assert!(watcher.watch(&created_file(vec![observed("in/a.txt", true)])).is_empty());
    assert!(watcher.watch(&Signal::Walked(walk())).is_empty());
    assert_eq!(watcher.current_phase(), Phase::Stopped);
}

#[test]
fn end_before_the_sweep_stops_the_watcher_too() {
    let mut watcher = watcher(false);
    assert!(watcher.watch(&Signal::Ended).is_empty());
    assert_eq!(watcher.current_phase(), Phase::Stopped);
    assert!(watcher.watch(&Signal::Walked(walk())).is_empty());
}

#[test]
fn dry_run_is_handed_on_to_every_task() {
    let mut watcher = watcher(true);
    let pending = watcher.watch(&Signal::Walked(walk()));
    let mut tasks = 0;
    for due in pending {
        if let Decision::Relocate(task) = due.decision {
            assert!(task.dry_run);
            assert!(task.execute(&Vec::new()).operations.is_empty());
            tasks += 1;
        }
    }
    assert_eq!(tasks, 3);
}
