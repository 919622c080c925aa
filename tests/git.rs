use git_monitor::diff::DiffLine;
use git_monitor::git::{
    detached_label, parse_branch, parse_last_commit, parse_log, parse_status_counts, RepoState,
};

#[test]
fn branch_names_and_detached_head() {
    assert_eq!(parse_branch("main\n"), Some("main".to_string()));
    assert_eq!(parse_branch("  feature/x \n"), Some("feature/x".to_string()));
    assert_eq!(parse_branch("HEAD\n"), None);
    assert_eq!(detached_label("1a2b3c4\n"), "detached:1a2b3c4");
}

#[test]
fn last_commit_hash_and_subject() {
    assert_eq!(
        parse_last_commit("0123abcd\nFix the thing\n"),
        (Some("0123abcd".to_string()), Some("Fix the thing".to_string()))
    );
    assert_eq!(parse_last_commit("\n  \n"), (None, None));
    assert_eq!(parse_last_commit("deadbeef\n"), (Some("deadbeef".to_string()), None));
}

#[test]
fn status_counts_by_column() {
    let out = "M  staged.rs\n M unstaged.rs\nMM both.rs\n?? new.rs\nA  added.rs\nx\n\n";
    assert_eq!(parse_status_counts(out), (3, 3));
    assert_eq!(parse_status_counts(""), (0, 0));
}

#[test]
fn log_lines_need_four_fields() {
    let out = "a1\0first\0Ann\02 days ago\nbroken line\nb2\0second\0Bob\0now\0extra\n";
    let entries = parse_log(out);
    assert_eq!(entries.len(), 2);
    assert_eq!(entries[0].hash, "a1");
    assert_eq!(entries[0].message, "first");
    assert_eq!(entries[0].author, "Ann");
    assert_eq!(entries[0].date_relative, "2 days ago");
    assert_eq!(entries[1].date_relative, "now\0extra");
}

#[test]
fn empty_state_holds_the_reason() {
    let st = RepoState::empty("no repository");
    assert_eq!(st.branch, "(unknown)");
    assert_eq!(st.staged_count, 0);
    assert!(st.staged_diff.is_empty());
    assert_eq!(st.unstaged_diff.len(), 1);
    assert_eq!(st.unstaged_diff[0].filename, "");
    assert!(matches!(&st.unstaged_diff[0].lines[0], DiffLine::Context(s) if s == "no repository"));
}

#[test]
fn assembled_state_parses_both_views() {
    let st = RepoState::assemble(
        "main".to_string(),
        (Some("abc".to_string()), None),
        (2, 5),
        "diff --git a/x b/x\n+1\n",
        "",
    );
    assert_eq!(st.unstaged_diff.len(), 1);
    assert_eq!(st.unstaged_diff[0].added, 1);
    assert!(st.staged_diff.is_empty());
    assert_eq!(st.unstaged_count, 5);
}
