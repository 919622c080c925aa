use git_monitor::app::{App, DiffView, InputMode};
use git_monitor::diff::{parse_files, DiffLine, FileDiff};

fn file(name: &str, body: usize) -> FileDiff {
    let mut raw = format!("diff --git a/{name} b/{name}\n@@ -1 +1 @@\n");
    for i in 0..body {
        raw.push_str(&format!("+line {i} of {name}\n"));
    }
    parse_files(&raw).remove(0)
}

fn sample() -> Vec<FileDiff> {
    vec![file("one.txt", 30), file("two.txt", 30), file("three.txt", 30)]
}

fn texts(app: &App) -> Vec<String> {
    app.visible_lines.iter().map(|l| l.text().to_string()).collect()
}

#[test]
fn new_app_is_empty_and_normal() {
    let app = App::new();
    assert!(!app.should_quit);
    assert_eq!(app.view, DiffView::Unstaged);
    assert_eq!(app.scroll, 0);
    assert_eq!(app.input_mode, InputMode::Normal);
    assert!(app.visible_lines.is_empty());
    assert!(app.search.query.is_empty());
}

#[test]
fn toggle_view_while_scrolled_resets_scroll_and_search() {
    let files = sample();
    let mut app = App::new();
    app.recompute_visible_lines(&files);
    app.set_viewport_height(20);
    app.scroll_down(40);
    assert_eq!(app.scroll, 40);
    app.enter_search(true);
    app.search_push('l');
    app.search_push('i');
    app.search_confirm(&app.visible_lines.clone());
    assert!(app.search.active);
    app.toggle_view();
    assert_eq!(app.view, DiffView::Staged);
    assert_eq!(app.scroll, 0);
    assert!(!app.search.active);
    assert!(app.search.query.is_empty());
    assert!(app.search.matches.is_empty());
    assert_eq!(app.input_mode, InputMode::Normal);
}

#[test]
fn fold_then_unfold_restores_visible_lines() {
    let files = sample();
    let mut app = App::new();
    app.set_viewport_height(10);
    app.recompute_visible_lines(&files);
    let before = texts(&app);
    let positions = app.file_header_positions.clone();
    app.next_file();
    assert_eq!(app.scroll as usize, positions[1]);
    app.toggle_file_fold(&files);
    assert_eq!(app.collapsed, vec!["two.txt".to_string()]);
    assert_eq!(app.visible_lines.len(), before.len() - 32);
    app.toggle_file_fold(&files);
    assert!(app.collapsed.is_empty());
    assert_eq!(texts(&app), before);
    assert_eq!(app.file_header_positions, positions);
}

#[test]
fn fold_all_keeps_only_headers_and_unfold_all_restores() {
    let files = sample();
    let mut app = App::new();
    app.recompute_visible_lines(&files);
    let before = texts(&app);
    app.fold_all(&files);
    assert_eq!(texts(&app), vec!["one.txt", "two.txt", "three.txt"]);
    assert_eq!(app.file_header_positions, vec![0, 1, 2]);
    app.unfold_all(&files);
    assert_eq!(texts(&app), before);
}

#[test]
fn scroll_stays_within_bounds() {
    let files = sample();
    let mut app = App::new();
    app.set_viewport_height(10);
    app.recompute_visible_lines(&files);
    let total = app.visible_lines.len() as u16;
    assert_eq!(total, 99);
    let max = total - 10;
    app.scroll_down(1000);
    assert_eq!(app.scroll, max);
    app.scroll_half_down();
    assert_eq!(app.scroll, max);
    app.scroll_up(3);
    assert_eq!(app.scroll, max - 3);
    app.scroll_half_up();
    assert_eq!(app.scroll, max - 8);
    app.scroll_to_bottom();
    assert_eq!(app.scroll, max);
    app.fold_all(&files);
    assert_eq!(app.scroll, 0);
    app.unfold_all(&files);
    app.scroll_to_bottom();
    app.set_viewport_height(90);
    assert_eq!(app.scroll, 9);
    app.toggle_view();
    assert_eq!(app.scroll, 0);
    app.scroll_up(5);
    assert_eq!(app.scroll, 0);
    app.scroll_to_top();
    assert_eq!(app.scroll, 0);
}

#[test]
fn empty_view_never_scrolls() {
    let mut app = App::new();
    app.scroll_down(5);
    assert_eq!(app.scroll, 0);
    app.scroll_half_down();
    assert_eq!(app.scroll, 0);
}

#[test]
fn next_and_prev_file_jump_between_headers() {
    let files = sample();
    let mut app = App::new();
    app.set_viewport_height(10);
    app.recompute_visible_lines(&files);
    assert_eq!(app.file_header_positions, vec![0, 33, 66]);
    app.next_file();
    assert_eq!(app.scroll, 33);
    app.next_file();
    assert_eq!(app.scroll, 66);
    app.next_file();
    assert_eq!(app.scroll, 66);
    app.prev_file();
    assert_eq!(app.scroll, 33);
    app.scroll_down(3);
    app.prev_file();
    assert_eq!(app.scroll, 33);
    app.prev_file();
    assert_eq!(app.scroll, 0);
}

#[test]
fn search_with_no_occurrence_keeps_scroll() {
    let files = sample();
    let mut app = App::new();
    app.set_viewport_height(10);
    app.recompute_visible_lines(&files);
    app.scroll_down(17);
    app.enter_search(true);
    for c in "absent".chars() {
        app.search_push(c);
    }
    app.search_confirm(&app.visible_lines.clone());
    assert_eq!(app.scroll, 17);
    assert!(!app.search.active);
    assert!(app.search.matches.is_empty());
    assert_eq!(app.input_mode, InputMode::Normal);
}

#[test]
fn search_is_case_insensitive_and_records_byte_spans() {
    let lines = vec![
        DiffLine::Context(" Alpha beta ALPHA".to_string()),
        DiffLine::Added("+nothing".to_string()),
        DiffLine::Removed("-alphabet".to_string()),
    ];
    let mut app = App::new();
    app.enter_search(true);
    for c in "ALPHA".chars() {
        app.search_push(c);
    }
    app.recompute_matches(&lines);
    assert_eq!(app.search.matches, vec![(0, 1, 6), (0, 12, 17), (2, 1, 6)]);
    assert!(app.search.active);
}

#[test]
fn search_matches_do_not_overlap() {
    let lines = vec![DiffLine::Context("aaaa".to_string())];
    let mut app = App::new();
    app.enter_search(true);
    app.search_push('a');
    app.search_push('a');
    app.recompute_matches(&lines);
    assert_eq!(app.search.matches, vec![(0, 0, 2), (0, 2, 4)]);
}

#[test]
fn empty_query_matches_nothing() {
    let lines = vec![DiffLine::Context("text".to_string())];
    let mut app = App::new();
    app.enter_search(true);
    app.recompute_matches(&lines);
    assert!(app.search.matches.is_empty());
    assert!(!app.search.active);
}

#[test]
fn next_match_cycles_back_to_start() {
    let files = sample();
    let mut app = App::new();
    app.set_viewport_height(10);
    app.recompute_visible_lines(&files);
    app.enter_search(true);
    for c in "line 7 ".chars() {
        app.search_push(c);
    }
    app.search_confirm(&app.visible_lines.clone());
    let n = app.search.matches.len();
    assert_eq!(n, 3);
    let start = app.search.current_match;
    assert_eq!(start, 0);
    assert_eq!(app.scroll, 10 - 5);
    for _ in 0..n {
        app.search_next();
    }
    assert_eq!(app.search.current_match, start);
    app.search_prev();
    assert_eq!(app.search.current_match, n - 1);
    assert_eq!(app.scroll, 66 + 10 - 5);
}

#[test]
fn backward_search_picks_last_match_in_view() {
    let files = sample();
    let mut app = App::new();
    app.set_viewport_height(10);
    app.recompute_visible_lines(&files);
    app.scroll_down(40);
    app.enter_search(false);
    for c in "line 1 ".chars() {
        app.search_push(c);
    }
    app.search_confirm(&app.visible_lines.clone());
    assert_eq!(app.search.matches.len(), 3);
    assert_eq!(app.search.current_match, 1);
    assert_eq!(app.scroll, 33 + 4 - 5);
}

#[test]
fn search_pop_removes_last_character() {
    let mut app = App::new();
    app.enter_search(true);
    app.search_pop();
    assert_eq!(app.search.query, "");
    app.search_push('x');
    app.search_push('y');
    app.search_pop();
    assert_eq!(app.search.query, "x");
    app.clear_search();
    assert_eq!(app.search.query, "");
    assert_eq!(app.input_mode, InputMode::Normal);
}

#[test]
fn commit_log_cursor_is_clamped() {
    let mut app = App::new();
    app.commit_log_down();
    assert_eq!(app.commit_log_selected, 0);
    app.commit_log_up();
    assert_eq!(app.commit_log_selected, 0);
    app.commit_log = git_monitor::git::parse_log("a\0m\0x\0now\nb\0n\0y\0then\n");
    app.commit_log_down();
    app.commit_log_down();
    assert_eq!(app.commit_log_selected, 1);
    app.commit_log_up();
    assert_eq!(app.commit_log_selected, 0);
}

#[test]
fn header_positions_increase_and_navigation_takes_nearest() {
    let files = vec![file("a", 2), file("b", 0), file("c", 3)];
    let mut app = App::new();
    app.set_viewport_height(1);
    app.recompute_visible_lines(&files);
    assert_eq!(app.file_header_positions, vec![0, 5, 8]);
    app.scroll_down(6);
    app.next_file();
    assert_eq!(app.scroll, 8);
    app.prev_file();
    assert_eq!(app.scroll, 5);
}

#[test]
fn enter_search_changes_nothing_else() {
    let files = sample();
    let mut app = App::new();
    app.set_viewport_height(10);
    app.recompute_visible_lines(&files);
    app.toggle_view();
    app.scroll_down(12);
    app.enter_search(false);
    assert_eq!(app.view, DiffView::Staged);
    assert_eq!(app.scroll, 12);
    assert_eq!(app.input_mode, InputMode::Search);
    assert!(!app.search.forward);
}
