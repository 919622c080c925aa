use git_monitor::app::{App, DiffView, InputMode, Screen};
use git_monitor::controller::{
    commit_log_loaded, handle_key, keys_in_burst, reader_action, refresh, Action, InputGate,
    PagerPhase, ReadOutcome, ReaderAction,
};
use git_monitor::event::{AppEvent, KeyCode, KeyPress, Modifiers};
use git_monitor::git::{parse_log, RepoState};

fn key(c: char) -> KeyPress {
    KeyPress { code: KeyCode::Char(c), mods: Modifiers::Plain }
}

fn ctrl(c: char) -> KeyPress {
    KeyPress { code: KeyCode::Char(c), mods: Modifiers::Control }
}

fn code(code: KeyCode) -> KeyPress {
    KeyPress { code, mods: Modifiers::Plain }
}

fn state() -> RepoState {
    let mut unstaged = String::from("diff --git a/u.txt b/u.txt\n@@ -1 +1 @@\n");
    for i in 0..40 {
        unstaged.push_str(&format!("+u{i}\n"));
    }
    let staged = "diff --git a/s.txt b/s.txt\n@@ -1 +1 @@\n+staged line\n";
    RepoState::assemble("main".to_string(), (None, None), (1, 1), &unstaged, staged)
}

#[test]
fn pause_then_resume_drops_only_events_queued_meanwhile() {
    let mut gate = InputGate::new();
    gate.enqueue(AppEvent::Key(key('j')));
    assert_eq!(gate.next_event(), Some(AppEvent::Key(key('j'))));
    gate.enqueue(AppEvent::Key(key('a')));
    gate.suspend();
    assert!(gate.input_paused());
    gate.enqueue(AppEvent::Key(key('q')));
    gate.hand_over();
    assert_eq!(gate.phase(), PagerPhase::Paged);
    gate.enqueue(AppEvent::Key(key('x')));
    gate.enqueue(AppEvent::Resize);
    assert_eq!(gate.next_event(), None);
    gate.resume();
    assert!(!gate.input_paused());
    assert_eq!(gate.next_event(), Some(AppEvent::Key(key('a'))));
    assert_eq!(gate.next_event(), None);
    gate.enqueue(AppEvent::Key(key('k')));
    assert_eq!(gate.next_event(), Some(AppEvent::Key(key('k'))));
    assert_eq!(gate.next_event(), None);
}

#[test]
fn gate_delivers_in_arrival_order() {
    let mut gate = InputGate::new();
    gate.enqueue(AppEvent::FsChange);
    gate.enqueue(AppEvent::Key(key('a')));
    gate.enqueue(AppEvent::Resize);
    assert_eq!(gate.next_event(), Some(AppEvent::FsChange));
    assert_eq!(gate.next_event(), Some(AppEvent::Key(key('a'))));
    assert_eq!(gate.next_event(), Some(AppEvent::Resize));
    assert_eq!(gate.next_event(), None);
}

#[test]
fn burst_keeps_keys_in_order_and_absorbs_signals() {
    let drained = vec![
        AppEvent::FsChange,
        AppEvent::Key(key('j')),
        AppEvent::Resize,
        AppEvent::FsChange,
        AppEvent::Key(key('k')),
    ];
    assert_eq!(keys_in_burst(&drained), vec![key('j'), key('k')]);
    assert!(keys_in_burst(&vec![AppEvent::FsChange]).is_empty());
}

#[test]
fn quit_keys() {
    let st = state();
    let mut app = App::new();
    handle_key(&mut app, ctrl('c'), &st);
    assert!(app.should_quit);
    let mut app = App::new();
    handle_key(&mut app, key('c'), &st);
    assert!(!app.should_quit);
    handle_key(&mut app, key('q'), &st);
    assert!(app.should_quit);
}

#[test]
fn tab_switches_view_and_rebuilds_lines() {
    let st = state();
    let mut app = App::new();
    refresh(&mut app, &st);
    app.set_viewport_height(5);
    assert_eq!(app.visible_lines.len(), 43);
    handle_key(&mut app, key('j'), &st);
    handle_key(&mut app, code(KeyCode::Down), &st);
    assert_eq!(app.scroll, 2);
    handle_key(&mut app, code(KeyCode::Tab), &st);
    assert_eq!(app.view, DiffView::Staged);
    assert_eq!(app.scroll, 0);
    assert_eq!(app.visible_lines.len(), 4);
    assert_eq!(app.visible_lines[0].text(), "s.txt");
}

#[test]
fn diff_keys_scroll_and_fold() {
    let st = state();
    let mut app = App::new();
    refresh(&mut app, &st);
    app.set_viewport_height(10);
    handle_key(&mut app, key('G'), &st);
    assert_eq!(app.scroll, 33);
    handle_key(&mut app, key('g'), &st);
    assert_eq!(app.scroll, 0);
    handle_key(&mut app, ctrl('d'), &st);
    assert_eq!(app.scroll, 5);
    handle_key(&mut app, ctrl('u'), &st);
    assert_eq!(app.scroll, 0);
    handle_key(&mut app, code(KeyCode::PageDown), &st);
    assert_eq!(app.scroll, 10);
    handle_key(&mut app, ctrl('b'), &st);
    assert_eq!(app.scroll, 0);
    handle_key(&mut app, key(' '), &st);
    assert_eq!(app.visible_lines.len(), 1);
    handle_key(&mut app, key('E'), &st);
    assert_eq!(app.visible_lines.len(), 43);
    handle_key(&mut app, key('C'), &st);
    assert_eq!(app.visible_lines.len(), 1);
}

#[test]
fn search_mode_routes_keys_to_query() {
    let st = state();
    let mut app = App::new();
    refresh(&mut app, &st);
    app.set_viewport_height(10);
    handle_key(&mut app, key('/'), &st);
    assert_eq!(app.input_mode, InputMode::Search);
    for c in "U3".chars() {
        handle_key(&mut app, key(c), &st);
    }
    assert_eq!(app.search.matches.len(), 11);
    handle_key(&mut app, key('q'), &st);
    assert!(!app.should_quit);
    assert!(app.search.matches.is_empty());
    assert!(!app.search.active);
    handle_key(&mut app, code(KeyCode::Backspace), &st);
    assert_eq!(app.search.query, "U3");
    assert_eq!(app.search.matches.len(), 11);
    handle_key(&mut app, code(KeyCode::Enter), &st);
    assert_eq!(app.input_mode, InputMode::Normal);
    assert!(app.search.active);
    assert_eq!(app.search.matches.len(), 11);
    handle_key(&mut app, key('n'), &st);
    assert_eq!(app.search.current_match, 1);
    handle_key(&mut app, key('N'), &st);
    assert_eq!(app.search.current_match, 0);
    handle_key(&mut app, code(KeyCode::Esc), &st);
    assert!(!app.search.active);
}

#[test]
fn refresh_recomputes_active_search() {
    let st = state();
    let mut app = App::new();
    refresh(&mut app, &st);
    app.enter_search(true);
    app.search_push('u');
    app.search_push('1');
    app.search_confirm(&app.visible_lines.clone());
    let before = app.search.matches.len();
    assert_eq!(before, 11);
    app.toggle_view();
    refresh(&mut app, &st);
    assert!(!app.search.active);
    assert_eq!(app.visible_lines.len(), 4);
}

#[test]
fn pager_key_takes_visible_text() {
    let st = state();
    let mut app = App::new();
    handle_key(&mut app, code(KeyCode::Tab), &st);
    let action = handle_key(&mut app, key('d'), &st);
    assert_eq!(action, Action::Nothing);
    assert_eq!(
        app.pager_content.as_deref(),
        Some("s.txt\ndiff --git a/s.txt b/s.txt\n@@ -1 +1 @@\n+staged line\n")
    );
    let mut empty = App::new();
    handle_key(&mut empty, key('d'), &st);
    assert!(empty.pager_content.is_none());
}

#[test]
fn commit_log_flow() {
    let st = state();
    let mut app = App::new();
    assert_eq!(handle_key(&mut app, key('l'), &st), Action::LoadCommitLog);
    commit_log_loaded(&mut app, parse_log("abc\0first\0ann\0now\ndef\0second\0bob\0later\n"));
    assert_eq!(app.screen, Screen::CommitLog);
    handle_key(&mut app, key('j'), &st);
    assert_eq!(app.commit_log_selected, 1);
    assert_eq!(
        handle_key(&mut app, code(KeyCode::Enter), &st),
        Action::ShowCommit("def".to_string())
    );
    handle_key(&mut app, key('g'), &st);
    assert_eq!(app.commit_log_selected, 0);
    handle_key(&mut app, key('G'), &st);
    assert_eq!(app.commit_log_selected, 1);
    handle_key(&mut app, code(KeyCode::Esc), &st);
    assert_eq!(app.screen, Screen::Diff);
}

#[test]
fn reader_reads_nothing_while_paused() {
    assert_eq!(reader_action(true, ReadOutcome::Key(key('x'))), ReaderAction::Sleep);
    assert_eq!(
        reader_action(false, ReadOutcome::Key(key('x'))),
        ReaderAction::Forward(AppEvent::Key(key('x')))
    );
    assert_eq!(
        reader_action(false, ReadOutcome::Resize),
        ReaderAction::Forward(AppEvent::Resize)
    );
    assert_eq!(reader_action(false, ReadOutcome::Timeout), ReaderAction::Continue);
    assert_eq!(reader_action(false, ReadOutcome::Unused), ReaderAction::Continue);
    assert_eq!(reader_action(false, ReadOutcome::Failed), ReaderAction::Stop);
}
