use git_monitor::watcher::{
    is_interesting_git_path, locate, should_notify, window_signals, EventPath, WatchEvent,
};
use ignore::gitignore::{Gitignore, GitignoreBuilder};

fn ev(settled: bool, path: EventPath) -> WatchEvent {
    WatchEvent { settled, path }
}

#[test]
fn allow_listed_metadata_paths() {
    for p in ["index", "HEAD", "refs/heads/main", "refs/", "MERGE_HEAD", "REBASE_HEAD"] {
        assert!(is_interesting_git_path(p), "{p}");
    }
    for p in ["objects/ab/cdef", "index.lock", "FETCH_HEAD", "logs/HEAD", "", "refs"] {
        assert!(!is_interesting_git_path(p), "{p}");
    }
}

#[test]
fn should_notify_by_location() {
    assert!(should_notify(&EventPath::Metadata("HEAD".to_string())));
    assert!(!should_notify(&EventPath::Metadata("objects/1".to_string())));
    assert!(should_notify(&EventPath::WorkTree { ignored: false }));
    assert!(!should_notify(&EventPath::WorkTree { ignored: true }));
    assert!(!should_notify(&EventPath::Outside));
}

#[test]
fn window_of_ignored_events_is_silent() {
    let events = vec![
        ev(true, EventPath::WorkTree { ignored: true }),
        ev(true, EventPath::WorkTree { ignored: true }),
        ev(true, EventPath::Metadata("objects/pack/x".to_string())),
        ev(true, EventPath::Outside),
    ];
    assert_eq!(window_signals(&events), 0);
    assert_eq!(window_signals(&Vec::new()), 0);
}

#[test]
fn window_with_relevant_event_signals_once() {
    let mut events = Vec::new();
    for _ in 0..50 {
        events.push(ev(true, EventPath::WorkTree { ignored: true }));
    }
    events.push(ev(true, EventPath::Metadata("index".to_string())));
    events.push(ev(true, EventPath::WorkTree { ignored: false }));
    events.push(ev(true, EventPath::WorkTree { ignored: false }));
    assert_eq!(window_signals(&events), 1);
    let one = vec![ev(true, EventPath::WorkTree { ignored: false })];
    assert_eq!(window_signals(&one), 1);
}

#[test]
fn continuous_events_do_not_count() {
    let events = vec![ev(false, EventPath::WorkTree { ignored: false })];
    assert_eq!(window_signals(&events), 0);
}

#[test]
fn locate_splits_metadata_from_work_tree() {
    let gi = Gitignore::empty();
    assert!(matches!(locate(None, false, &gi), EventPath::Outside));
    match locate(Some(".git/refs/heads/main"), false, &gi) {
        EventPath::Metadata(rel) => assert_eq!(rel, "refs/heads/main"),
        _ => panic!("expected metadata"),
    }
    match locate(Some(".git"), true, &gi) {
        EventPath::Metadata(rel) => assert_eq!(rel, ""),
        _ => panic!("expected metadata"),
    }
    assert!(matches!(
        locate(Some(".gitignore"), false, &gi),
        EventPath::WorkTree { ignored: false }
    ));
    assert!(matches!(
        locate(Some("src/main.rs"), false, &gi),
        EventPath::WorkTree { ignored: false }
    ));
}

#[test]
fn locate_consults_ignore_rules() {
    let mut builder = GitignoreBuilder::new("/repo");
    builder.add_line(None, "target/").unwrap();
    builder.add_line(None, "*.log").unwrap();
    let gi = builder.build().unwrap();
    assert!(matches!(
        locate(Some("debug.log"), false, &gi),
        EventPath::WorkTree { ignored: true }
    ));
    assert!(matches!(
        locate(Some("target"), true, &gi),
        EventPath::WorkTree { ignored: true }
    ));
    assert!(matches!(
        locate(Some("src/lib.rs"), false, &gi),
        EventPath::WorkTree { ignored: false }
    ));
}
