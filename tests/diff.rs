use git_monitor::app::App;
use git_monitor::diff::{parse_files, DiffLine};

fn two_file_diff() -> String {
    let mut raw = String::new();
    for name in ["src/a.rs", "docs/b.md"] {
        raw.push_str(&format!("diff --git a/{name} b/{name}\n"));
        raw.push_str("index 1111111..2222222 100644\n");
        raw.push_str(&format!("--- a/{name}\n"));
        raw.push_str(&format!("+++ b/{name}\n"));
        raw.push_str("@@ -1,3 +1,5 @@\n");
        raw.push_str(" unchanged\n");
        raw.push_str("+one\n");
        raw.push_str("+two\n");
        raw.push_str("-gone\n");
        raw.push_str("+three\n");
    }
    raw
}

#[test]
fn two_sections_parse_with_counts_and_headers() {
    let files = parse_files(&two_file_diff());
    assert_eq!(files.len(), 2);
    assert_eq!(files[0].filename, "src/a.rs");
    assert_eq!(files[1].filename, "docs/b.md");
    for f in &files {
        assert_eq!(f.added, 3);
        assert_eq!(f.removed, 1);
        assert_eq!(f.lines.len(), 10);
    }
    let mut app = App::new();
    app.recompute_visible_lines(&files);
    let headers = app
        .visible_lines
        .iter()
        .filter(|l| matches!(l, DiffLine::FileHeader { .. }))
        .count();
    assert_eq!(headers, 2);
    assert_eq!(app.file_header_positions, vec![0, 11]);
    assert_eq!(app.visible_lines.len(), 22);
    assert_eq!(app.diff_line_count, 22);
}

#[test]
fn lines_are_classified_by_prefix() {
    let files = parse_files(&two_file_diff());
    let kinds: Vec<&str> = files[0]
        .lines
        .iter()
        .map(|l| match l {
            DiffLine::FileHeader { .. } => "file",
            DiffLine::Header(_) => "header",
            DiffLine::Hunk(_) => "hunk",
            DiffLine::Added(_) => "added",
            DiffLine::Removed(_) => "removed",
            DiffLine::Context(_) => "context",
        })
        .collect();
    assert_eq!(
        kinds,
        vec![
            "header", "header", "header", "header", "hunk", "context", "added", "added",
            "removed", "added"
        ]
    );
    assert_eq!(files[0].lines[2].text(), "--- a/src/a.rs");
    assert_eq!(files[0].lines[6].text(), "+one");
}

#[test]
fn empty_input_has_no_sections() {
    assert!(parse_files("").is_empty());
}

#[test]
fn text_before_first_header_is_its_own_section() {
    let files = parse_files("warning: x\ndiff --git a/f b/f\n+new\n");
    assert_eq!(files.len(), 2);
    assert_eq!(files[0].filename, "warning: x");
    assert_eq!(files[1].filename, "f");
    assert_eq!(files[1].added, 1);
}

#[test]
fn filename_uses_last_b_marker() {
    let files = parse_files("diff --git a/x b/y b/z\n");
    assert_eq!(files[0].filename, "z");
}

#[test]
fn header_without_marker_keeps_whole_line() {
    let files = parse_files("diff --git nothing-here\n");
    assert_eq!(files[0].filename, "diff --git nothing-here");
}

#[test]
fn crlf_line_endings_are_stripped() {
    let files = parse_files("diff --git a/f b/f\r\n+x\r\n-y\r\n");
    assert_eq!(files[0].filename, "f");
    assert_eq!(files[0].lines[1].text(), "+x");
    assert_eq!(files[0].added, 1);
    assert_eq!(files[0].removed, 1);
}

#[test]
fn binary_and_plus_header_lines_are_headers() {
    let files = parse_files("diff --git a/p b/p\nBinary files a/p and b/p differ\n+++ b/p\n");
    assert!(matches!(files[0].lines[1], DiffLine::Header(_)));
    assert!(matches!(files[0].lines[2], DiffLine::Header(_)));
    assert_eq!(files[0].added, 0);
}
