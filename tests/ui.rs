use git_monitor::app::App;
use git_monitor::diff::DiffLine;
use git_monitor::git::RepoState;
use git_monitor::ui::{
    ago_label, decimal, help_text, line_segments, status_text, truncate_str, Segment, SegmentKind,
};

#[test]
fn short_strings_are_kept() {
    assert_eq!(truncate_str("abc", 3), "abc");
    assert_eq!(truncate_str("", 0), "");
}

#[test]
fn long_strings_get_an_ellipsis() {
    assert_eq!(truncate_str("abcdefgh", 6), "abc...");
    assert_eq!(truncate_str("abcdefgh", 3), "abc");
    assert_eq!(truncate_str("abcdefgh", 0), "");
    assert_eq!(truncate_str("héllo wörld", 8), "héllo...");
}

#[test]
fn decimal_and_age_labels() {
    assert_eq!(decimal(0), "0");
    assert_eq!(decimal(7), "7");
    assert_eq!(decimal(1200), "1200");
    assert_eq!(ago_label(0), "just now");
    assert_eq!(ago_label(59), "59s ago");
    assert_eq!(ago_label(60), "1m ago");
    assert_eq!(ago_label(3599), "59m ago");
}

#[test]
fn status_bar_text() {
    let st = RepoState::assemble(
        "main".to_string(),
        (Some("0123456789abcdef".to_string()), Some("Fix it".to_string())),
        (2, 13),
        "",
        "",
    );
    assert_eq!(
        status_text(&st, 5),
        " main | 0123456 Fix it | 2 staged, 13 unstaged  5s ago"
    );
    let empty = RepoState::empty("x");
    assert_eq!(
        status_text(&empty, 0),
        " (unknown) | ------- (no commits) | 0 staged, 0 unstaged  just now"
    );
}

#[test]
fn help_bar_text() {
    let mut app = App::new();
    assert!(help_text(&app).starts_with(" q: quit | Tab: staged/unstaged"));
    app.enter_search(false);
    app.search_push('a');
    assert_eq!(help_text(&app), "?a\u{2588}");
    let lines = vec![DiffLine::Context("a a a".to_string())];
    app.search_confirm(&lines);
    app.search_next();
    assert_eq!(help_text(&app), " [1/3] \"a\"  n/N: next/prev | Esc: clear");
}

#[test]
fn segments_split_line_around_matches() {
    let lines = vec![
        DiffLine::Context("xx ab yy ab".to_string()),
        DiffLine::Context("none".to_string()),
    ];
    let mut app = App::new();
    assert_eq!(
        line_segments(&app.search, 0, 11),
        vec![Segment { start: 0, end: 11, kind: SegmentKind::Plain }]
    );
    app.enter_search(true);
    app.search_push('A');
    app.search_push('B');
    app.search_confirm(&lines);
    assert_eq!(
        line_segments(&app.search, 0, 11),
        vec![
            Segment { start: 0, end: 3, kind: SegmentKind::Plain },
            Segment { start: 3, end: 5, kind: SegmentKind::Current },
            Segment { start: 5, end: 9, kind: SegmentKind::Plain },
            Segment { start: 9, end: 11, kind: SegmentKind::Match },
        ]
    );
    assert_eq!(
        line_segments(&app.search, 1, 4),
        vec![Segment { start: 0, end: 4, kind: SegmentKind::Plain }]
    );
}
