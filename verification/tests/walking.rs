use lolcate::config::{Config, Skip};
use lolcate::update::{
    access_failure_message, garbled_name_message, update_database, write_entry, EntryPath,
    WalkEvent, Written,
};
use lolcate::walk::{
    admits, next_state, walker, EntryKind, Found, Step, WalkState, Worker, QUEUE_CAPACITY,
    WALK_THREADS,
};

fn config(skip: Skip, ignore_symlinks: bool) -> Config {
    Config {
        description: String::new(),
        dirs: vec![String::from("/data"), String::from("/srv/files"), String::from("/opt")],
        skip,
        ignore_symlinks,
        ignore_hidden: true,
        gitignore: false,
    }
}

fn entry(path: &str, kind: EntryKind) -> WalkEvent {
    WalkEvent::Entry { path: EntryPath::Text(String::from(path)), kind: Some(kind) }
}

fn sample_events() -> Vec<WalkEvent> {
    vec![
        entry("/data", EntryKind::Directory),
        entry("/data/a.txt", EntryKind::Other),
        entry("/data/link", EntryKind::Symlink),
        WalkEvent::Failure { reason: String::from("permission denied") },
        entry("/data/sub", EntryKind::Directory),
        WalkEvent::Entry { path: EntryPath::Garbled(String::from("\"/data/\\xFF\"")), kind: Some(EntryKind::Other) },
        WalkEvent::Entry { path: EntryPath::Text(String::from("/data/odd")), kind: None },
        entry("/data/sub/b.png", EntryKind::Other),
    ]
}

#[test]
fn tunables() {
    assert_eq!(QUEUE_CAPACITY, 8000);
    assert_eq!(WALK_THREADS, 4);
}

#[test]
fn plan_follows_the_settings() {
    let plan = walker(&config(Skip::Nothing, false), "/home/u/.config", "work");
    assert_eq!(plan.seed, "/data");
    assert_eq!(plan.more_roots, vec![String::from("/srv/files"), String::from("/opt")]);
    assert!(plan.skip_hidden);
    assert!(!plan.parents);
    assert!(plan.follow_links);
    assert!(!plan.dot_ignore);
    assert!(!plan.git_global);
    assert!(!plan.git_ignore);
    assert!(!plan.git_exclude);
    assert_eq!(plan.ignore_file, "/home/u/.config/lolcate/work/ignores");
    assert_eq!(plan.threads, 4);
}

#[test]
fn plan_with_gitignore_and_without_links() {
    let mut settings = config(Skip::Dirs, true);
    settings.gitignore = true;
    settings.ignore_hidden = false;
    settings.dirs = vec![String::from("/only")];
    let plan = walker(&settings, "/c", "db");
    assert_eq!(plan.seed, "/only");
    assert!(plan.more_roots.is_empty());
    assert!(!plan.skip_hidden);
    assert!(!plan.follow_links);
    assert!(plan.git_global);
    assert!(plan.git_ignore);
    assert!(!plan.git_exclude);
    assert!(!plan.parents);
}

#[test]
fn skip_policy_on_kinds() {
    assert!(admits(Skip::Nothing, false, Some(EntryKind::Directory)));
    assert!(admits(Skip::Nothing, false, Some(EntryKind::Other)));
    assert!(admits(Skip::Nothing, false, Some(EntryKind::Symlink)));
    assert!(!admits(Skip::Dirs, false, Some(EntryKind::Directory)));
    assert!(admits(Skip::Dirs, false, Some(EntryKind::Other)));
    assert!(admits(Skip::Dirs, false, Some(EntryKind::Symlink)));
    assert!(admits(Skip::Files, false, Some(EntryKind::Directory)));
    assert!(!admits(Skip::Files, false, Some(EntryKind::Other)));
    assert!(!admits(Skip::Files, false, Some(EntryKind::Symlink)));
}

#[test]
fn symlink_policy_on_kinds() {
    assert!(!admits(Skip::Nothing, true, Some(EntryKind::Symlink)));
    assert!(!admits(Skip::Dirs, true, Some(EntryKind::Symlink)));
    assert!(admits(Skip::Nothing, true, Some(EntryKind::Other)));
    assert!(admits(Skip::Nothing, true, Some(EntryKind::Directory)));
    assert!(!admits(Skip::Files, true, Some(EntryKind::Other)));
}

#[test]
fn entry_of_unknown_kind_is_dropped() {
    assert!(!admits(Skip::Nothing, false, None));
    assert!(!admits(Skip::Dirs, true, None));
    assert!(!admits(Skip::Files, false, None));
}

#[test]
fn index_without_exclusions() {
    let built = update_database(&config(Skip::Nothing, false), &sample_events());
    assert_eq!(
        built.index,
        "/data\n/data/a.txt\n/data/link\n/data/sub\n/data/sub/b.png\n"
    );
    assert_eq!(
        built.diagnostics,
        vec![
            String::from("failed to access entry (permission denied)"),
            String::from("File name contains invalid unicode: \"/data/\\xFF\""),
        ]
    );
}

#[test]
fn index_without_directories() {
    let built = update_database(&config(Skip::Dirs, false), &sample_events());
    assert_eq!(built.index, "/data/a.txt\n/data/link\n/data/sub/b.png\n");
}

#[test]
fn index_of_directories_only() {
    let built = update_database(&config(Skip::Files, false), &sample_events());
    assert_eq!(built.index, "/data\n/data/sub\n");
    assert_eq!(
        built.diagnostics,
        vec![String::from("failed to access entry (permission denied)")]
    );
}

#[test]
fn index_without_symlinks() {
    let built = update_database(&config(Skip::Nothing, true), &sample_events());
    assert_eq!(built.index, "/data\n/data/a.txt\n/data/sub\n/data/sub/b.png\n");
    let built = update_database(&config(Skip::Dirs, true), &sample_events());
    assert_eq!(built.index, "/data/a.txt\n/data/sub/b.png\n");
}

#[test]
fn index_of_nothing_is_empty() {
    let built = update_database(&config(Skip::Nothing, false), &vec![]);
    assert_eq!(built.index, "");
    assert!(built.diagnostics.is_empty());
}

#[test]
fn index_keeps_repeated_paths() {
    let events = vec![entry("/a", EntryKind::Other), entry("/a", EntryKind::Other)];
    let built = update_database(&config(Skip::Nothing, false), &events);
    assert_eq!(built.index, "/a\n/a\n");
}

#[test]
fn rebuild_in_another_order_has_the_same_lines() {
    let settings = config(Skip::Dirs, true);
    let first = sample_events();
    let mut second = sample_events();
    second.reverse();
    let a = update_database(&settings, &first).index;
    let b = update_database(&settings, &second).index;
    let mut lines_a: Vec<&str> = a.lines().collect();
    let mut lines_b: Vec<&str> = b.lines().collect();
    assert_ne!(lines_a, lines_b);
    lines_a.sort();
    lines_b.sort();
    assert_eq!(lines_a, lines_b);
}

#[test]
fn diagnostics_of_a_walk() {
    assert_eq!(access_failure_message("gone"), "failed to access entry (gone)");
    assert_eq!(garbled_name_message("\"x\""), "File name contains invalid unicode: \"x\"");
}

#[test]
fn worker_decides_entry_by_entry() {
    let worker = Worker::new(&config(Skip::Dirs, true));
    assert_eq!(worker.visit(Found::Entry(Some(EntryKind::Other))), Step::Enqueue);
    assert_eq!(worker.visit(Found::Entry(Some(EntryKind::Directory))), Step::Pass);
    assert_eq!(worker.visit(Found::Entry(Some(EntryKind::Symlink))), Step::Pass);
    assert_eq!(worker.visit(Found::Entry(None)), Step::Pass);
    assert_eq!(worker.visit(Found::Failure), Step::Report);
}

#[test]
fn worker_enqueues_nothing_once_the_queue_is_closed() {
    let mut worker = Worker::new(&config(Skip::Nothing, false));
    assert_eq!(worker.visit(Found::Entry(Some(EntryKind::Other))), Step::Enqueue);
    assert_eq!(worker.delivered(true), WalkState::Continue);
    assert_eq!(worker.visit(Found::Entry(Some(EntryKind::Other))), Step::Enqueue);
    assert_eq!(worker.delivered(false), WalkState::Quit);
    assert_eq!(worker.visit(Found::Entry(Some(EntryKind::Other))), Step::Halt);
    assert_eq!(worker.visit(Found::Failure), Step::Halt);
    assert_eq!(worker.delivered(true), WalkState::Quit);
    assert_eq!(worker.visit(Found::Entry(Some(EntryKind::Directory))), Step::Halt);
}

#[test]
fn walk_goes_on_after_what_is_left_out() {
    assert_eq!(next_state(Step::Pass), Some(WalkState::Continue));
    assert_eq!(next_state(Step::Report), Some(WalkState::Continue));
    assert_eq!(next_state(Step::Halt), Some(WalkState::Quit));
    assert_eq!(next_state(Step::Enqueue), None);
}

#[test]
fn writer_turns_text_into_lines() {
    assert_eq!(
        write_entry(&EntryPath::Text(String::from("/a/b"))),
        Written::Line(String::from("/a/b\n"))
    );
    assert_eq!(
        write_entry(&EntryPath::Garbled(String::from("\"/a/\\xFF\""))),
        Written::Diagnostic(String::from("File name contains invalid unicode: \"/a/\\xFF\""))
    );
}

#[test]
fn events_are_handed_to_workers_by_kind() {
    assert_eq!(entry("/a", EntryKind::Symlink).found(), Found::Entry(Some(EntryKind::Symlink)));
    let unknown = WalkEvent::Entry { path: EntryPath::Text(String::from("/a")), kind: None };
    assert_eq!(unknown.found(), Found::Entry(None));
    assert_eq!(WalkEvent::Failure { reason: String::from("gone") }.found(), Found::Failure);
}
