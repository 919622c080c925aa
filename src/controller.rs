//! Key dispatch and the decisions of the main loop: what a key does on each screen,
//! how a burst of change signals is absorbed, and how input is held back while an
//! external pager owns the terminal.
use vstd::prelude::*;

use crate::app::{App, DiffView, InputMode, Screen, confirm_post, query_hits};
use crate::diff::{DiffLineView, FileDiff, copy_lines, files_view};
use crate::event::{AppEvent, KeyCode, KeyPress, Modifiers};
use crate::git::{CommitEntry, RepoState};
use crate::text::{chars_of, push_char, trim_spec, trimmed};

verus! {

/// Outside work the main loop must do on the controller's behalf.
#[derive(Debug, Clone, PartialEq, Eq)]
pub enum Action {
    Nothing,
    /// Fetch the recent commits and hand them to `commit_log_loaded`.
    LoadCommitLog,
    /// Fetch the full text of this commit and page it.
    ShowCommit(String),
}

/// What a key does on the diff screen in normal mode.
#[derive(Debug, Clone, Copy, PartialEq, Eq, Structural)]
pub enum DiffCommand {
    Quit,
    ToggleView,
    LineDown,
    LineUp,
    Top,
    Bottom,
    HalfDown,
    HalfUp,
    PageDown,
    PageUp,
    NextFile,
    PrevFile,
    ToggleFold,
    FoldAll,
    UnfoldAll,
    SearchForward,
    SearchBackward,
    NextMatch,
    PrevMatch,
    ClearSearch,
    Page,
    OpenLog,
    Ignore,
}

/// What a key does on the commit log screen in normal mode.
#[derive(Debug, Clone, Copy, PartialEq, Eq, Structural)]
pub enum LogCommand {
    Back,
    Quit,
    Down,
    Up,
    First,
    Last,
    Show,
    SearchForward,
    SearchBackward,
    NextMatch,
    PrevMatch,
    Ignore,
}

/// The diff screen's key map.
pub open spec fn diff_command(k: KeyPress) -> DiffCommand {
    match (k.code, k.mods) {
        (KeyCode::Char('q'), _) => DiffCommand::Quit,
        (KeyCode::Char('c'), Modifiers::Control) => DiffCommand::Quit,
        (KeyCode::Tab, _) => DiffCommand::ToggleView,
        (KeyCode::Char('j'), _) => DiffCommand::LineDown,
        (KeyCode::Down, _) => DiffCommand::LineDown,
        (KeyCode::Char('k'), _) => DiffCommand::LineUp,
        (KeyCode::Up, _) => DiffCommand::LineUp,
        (KeyCode::Char('g'), _) => DiffCommand::Top,
        (KeyCode::Char('G'), _) => DiffCommand::Bottom,
        (KeyCode::Char('d'), Modifiers::Control) => DiffCommand::HalfDown,
        (KeyCode::Char('u'), Modifiers::Control) => DiffCommand::HalfUp,
        (KeyCode::Char('f'), Modifiers::Control) => DiffCommand::PageDown,
        (KeyCode::PageDown, _) => DiffCommand::PageDown,
        (KeyCode::Char('b'), Modifiers::Control) => DiffCommand::PageUp,
        (KeyCode::PageUp, _) => DiffCommand::PageUp,
        (KeyCode::Char(']'), _) => DiffCommand::NextFile,
        (KeyCode::Char('['), _) => DiffCommand::PrevFile,
        (KeyCode::Char(' '), _) => DiffCommand::ToggleFold,
        (KeyCode::Char('C'), _) => DiffCommand::FoldAll,
        (KeyCode::Char('E'), _) => DiffCommand::UnfoldAll,
        (KeyCode::Char('/'), _) => DiffCommand::SearchForward,
        (KeyCode::Char('?'), _) => DiffCommand::SearchBackward,
        (KeyCode::Char('n'), _) => DiffCommand::NextMatch,
        (KeyCode::Char('N'), _) => DiffCommand::PrevMatch,
        (KeyCode::Esc, _) => DiffCommand::ClearSearch,
        (KeyCode::Char('d'), Modifiers::Plain) => DiffCommand::Page,
        (KeyCode::Char('l'), _) => DiffCommand::OpenLog,
        _ => DiffCommand::Ignore,
    }
}

/// The commit log screen's key map.
pub open spec fn log_command(k: KeyPress) -> LogCommand {
    match (k.code, k.mods) {
        (KeyCode::Char('q'), _) => LogCommand::Back,
        (KeyCode::Esc, _) => LogCommand::Back,
        (KeyCode::Char('c'), Modifiers::Control) => LogCommand::Quit,
        (KeyCode::Char('j'), _) => LogCommand::Down,
        (KeyCode::Down, _) => LogCommand::Down,
        (KeyCode::Char('k'), _) => LogCommand::Up,
        (KeyCode::Up, _) => LogCommand::Up,
        (KeyCode::Char('g'), _) => LogCommand::First,
        (KeyCode::Char('G'), _) => LogCommand::Last,
        (KeyCode::Enter, _) => LogCommand::Show,
        (KeyCode::Char('d'), Modifiers::Plain) => LogCommand::Show,
        (KeyCode::Char('/'), _) => LogCommand::SearchForward,
        (KeyCode::Char('?'), _) => LogCommand::SearchBackward,
        (KeyCode::Char('n'), _) => LogCommand::NextMatch,
        (KeyCode::Char('N'), _) => LogCommand::PrevMatch,
        _ => LogCommand::Ignore,
    }
}

/// Decode a key on the diff screen.
pub fn decode_diff_key(k: KeyPress) -> (r: DiffCommand)
    ensures
        r == diff_command(k),
{
    match (k.code, k.mods) {
        (KeyCode::Char('q'), _) => DiffCommand::Quit,
        (KeyCode::Char('c'), Modifiers::Control) => DiffCommand::Quit,
        (KeyCode::Tab, _) => DiffCommand::ToggleView,
        (KeyCode::Char('j'), _) => DiffCommand::LineDown,
        (KeyCode::Down, _) => DiffCommand::LineDown,
        (KeyCode::Char('k'), _) => DiffCommand::LineUp,
        (KeyCode::Up, _) => DiffCommand::LineUp,
        (KeyCode::Char('g'), _) => DiffCommand::Top,
        (KeyCode::Char('G'), _) => DiffCommand::Bottom,
        (KeyCode::Char('d'), Modifiers::Control) => DiffCommand::HalfDown,
        (KeyCode::Char('u'), Modifiers::Control) => DiffCommand::HalfUp,
        (KeyCode::Char('f'), Modifiers::Control) => DiffCommand::PageDown,
        (KeyCode::PageDown, _) => DiffCommand::PageDown,
        (KeyCode::Char('b'), Modifiers::Control) => DiffCommand::PageUp,
        (KeyCode::PageUp, _) => DiffCommand::PageUp,
        (KeyCode::Char(']'), _) => DiffCommand::NextFile,
        (KeyCode::Char('['), _) => DiffCommand::PrevFile,
        (KeyCode::Char(' '), _) => DiffCommand::ToggleFold,
        (KeyCode::Char('C'), _) => DiffCommand::FoldAll,
        (KeyCode::Char('E'), _) => DiffCommand::UnfoldAll,
        (KeyCode::Char('/'), _) => DiffCommand::SearchForward,
        (KeyCode::Char('?'), _) => DiffCommand::SearchBackward,
        (KeyCode::Char('n'), _) => DiffCommand::NextMatch,
        (KeyCode::Char('N'), _) => DiffCommand::PrevMatch,
        (KeyCode::Esc, _) => DiffCommand::ClearSearch,
        (KeyCode::Char('d'), Modifiers::Plain) => DiffCommand::Page,
        (KeyCode::Char('l'), _) => DiffCommand::OpenLog,
        _ => DiffCommand::Ignore,
    }
}

/// Decode a key on the commit log screen.
pub fn decode_log_key(k: KeyPress) -> (r: LogCommand)
    ensures
        r == log_command(k),
{
    match (k.code, k.mods) {
        (KeyCode::Char('q'), _) => LogCommand::Back,
        (KeyCode::Esc, _) => LogCommand::Back,
        (KeyCode::Char('c'), Modifiers::Control) => LogCommand::Quit,
        (KeyCode::Char('j'), _) => LogCommand::Down,
        (KeyCode::Down, _) => LogCommand::Down,
        (KeyCode::Char('k'), _) => LogCommand::Up,
        (KeyCode::Up, _) => LogCommand::Up,
        (KeyCode::Char('g'), _) => LogCommand::First,
        (KeyCode::Char('G'), _) => LogCommand::Last,
        (KeyCode::Enter, _) => LogCommand::Show,
        (KeyCode::Char('d'), Modifiers::Plain) => LogCommand::Show,
        (KeyCode::Char('/'), _) => LogCommand::SearchForward,
        (KeyCode::Char('?'), _) => LogCommand::SearchBackward,
        (KeyCode::Char('n'), _) => LogCommand::NextMatch,
        (KeyCode::Char('N'), _) => LogCommand::PrevMatch,
        _ => LogCommand::Ignore,
    }
}

/// The structured file diffs of the view that is shown.
pub open spec fn current_files_spec(view: DiffView, state: RepoState) -> Seq<FileDiff> {
    match view {
        DiffView::Unstaged => state.unstaged_diff@,
        DiffView::Staged => state.staged_diff@,
    }
}

/// Return the structured file diffs for the current view.
pub fn current_files<'a>(app: &App, state: &'a RepoState) -> (r: &'a [FileDiff])
    ensures
        r@ == current_files_spec(app.view, *state),
{
    match app.view {
        DiffView::Unstaged => state.unstaged_diff.as_slice(),
        DiffView::Staged => state.staged_diff.as_slice(),
    }
}

/// The text handed to the pager: each visible line followed by a newline.
pub open spec fn pager_text(lines: Seq<DiffLineView>) -> Seq<char>
    decreases lines.len(),
{
    if lines.len() == 0 {
        Seq::empty()
    } else {
        pager_text(lines.drop_last()) + lines.last().text() + seq!['\n']
    }
}

/// Join the visible lines for the pager.
fn visible_text(app: &App) -> (r: String)
    ensures
        r@ == pager_text(app.visible()),
{
    let mut r = String::new();
    let ghost lv = app.visible();
    let mut i: usize = 0;
    while i < app.visible_lines.len()
        invariant
            i <= app.visible_lines@.len(),
            lv == app.visible(),
            r@ == pager_text(lv.subrange(0, i as int)),
        decreases app.visible_lines@.len() - i,
    {
        assert(lv.subrange(0, i + 1).drop_last() =~= lv.subrange(0, i as int));
        assert(lv.subrange(0, i + 1).last() == app.visible_lines@[i as int]@);
        r.append(app.visible_lines[i].text());
        push_char(&mut r, '\n');
        i = i + 1;
    }
    assert(lv.subrange(0, app.visible_lines@.len() as int) =~= lv);
    r
}

/// Dispatch a single key event based on current input mode and screen.
pub fn handle_key(app: &mut App, key: KeyPress, state: &RepoState) -> (r: Action)
    requires
        old(app).wf(),
    ensures
        final(app).wf(),
        old(app).input_mode == InputMode::Search ==> r == Action::Nothing && search_key_post(
            *old(app),
            *final(app),
            key,
        ),
        old(app).input_mode == InputMode::Normal && old(app).screen == Screen::Diff ==> diff_key_post(
            *old(app),
            *final(app),
            key,
            *state,
            r,
        ),
        old(app).input_mode == InputMode::Normal && old(app).screen == Screen::CommitLog
            ==> log_key_post(*old(app), *final(app), key, r),
{
    match app.input_mode {
        InputMode::Search => {
            handle_search_input(app, key);
            Action::Nothing
        },
        InputMode::Normal => match app.screen {
            Screen::Diff => handle_diff_key(app, key, state),
            Screen::CommitLog => handle_commit_log_key(app, key),
        },
    }
}

/// A search was started in direction `forward`: search mode, an empty query, nothing
/// matched; nothing else changes.
pub open spec fn search_started(prev: App, next: App, forward: bool) -> bool {
    &&& next == (App { input_mode: InputMode::Search, search: next.search, ..prev })
    &&& next.search.query@.len() == 0
    &&& next.search.forward == forward
    &&& !next.search.active
    &&& next.search.matches@.len() == 0
    &&& next.search.current_match == 0
}

/// The search was cleared and normal mode restored; nothing else changes.
pub open spec fn search_cleared(prev: App, next: App) -> bool {
    &&& next == (App { input_mode: InputMode::Normal, search: next.search, ..prev })
    &&& next.search.is_cleared()
}

/// What a key does while the query is typed: each edit recomputes the matches of
/// the new query in full.
pub open spec fn search_key_post(prev: App, next: App, key: KeyPress) -> bool {
    match key.code {
        KeyCode::Esc => search_cleared(prev, next),
        KeyCode::Enter => confirm_post(prev, next, prev.visible()),
        KeyCode::Backspace => {
            &&& next.search.query@ == if prev.search.query@.len() == 0 {
                prev.search.query@
            } else {
                prev.search.query@.drop_last()
            }
            &&& next.input_mode == prev.input_mode
            &&& next.match_view() == query_hits(prev.visible(), next.search.query@)
            &&& next.search.active == (next.match_view().len() > 0)
            &&& next.search.forward == prev.search.forward
            &&& next.search.current_match == prev.search.current_match
            &&& next.unchanged_but_search(prev)
        },
        KeyCode::Char(c) => {
            &&& next.search.query@ == prev.search.query@.push(c)
            &&& next.input_mode == prev.input_mode
            &&& next.match_view() == query_hits(prev.visible(), next.search.query@)
            &&& next.search.active == (next.match_view().len() > 0)
            &&& next.search.forward == prev.search.forward
            &&& next.search.current_match == prev.search.current_match
            &&& next.unchanged_but_search(prev)
        },
        _ => next == prev,
    }
}

// ── Search input mode ───────────────────────────────────────────

/// Route a key into the query being typed.
fn handle_search_input(app: &mut App, key: KeyPress)
    requires
        old(app).wf(),
    ensures
        final(app).wf(),
        search_key_post(*old(app), *final(app), key),
{
    match key.code {
        KeyCode::Esc => app.clear_search(),
        KeyCode::Enter => {
            let lines = copy_lines(&app.visible_lines);
            app.search_confirm(&lines);
        },
        KeyCode::Backspace => {
            app.search_pop();
            let lines = copy_lines(&app.visible_lines);
            app.recompute_matches(&lines);
        },
        KeyCode::Char(c) => {
            app.search_push(c);
            let lines = copy_lines(&app.visible_lines);
            app.recompute_matches(&lines);
        },
        _ => {},
    }
}

/// What a key does on the diff screen in normal mode, and the outside work it asks for.
pub open spec fn diff_key_post(prev: App, next: App, key: KeyPress, state: RepoState, r: Action) -> bool {
    let files = files_view(current_files_spec(next.view, state));
    &&& r == if diff_command(key) == DiffCommand::OpenLog {
        Action::LoadCommitLog
    } else {
        Action::Nothing
    }
    &&& match diff_command(key) {
        DiffCommand::Quit => next == (App { should_quit: true, ..prev }),
        DiffCommand::ToggleView => {
            &&& next.view != prev.view
            &&& next.scroll == 0
            &&& next.search.is_cleared()
            &&& next.input_mode == InputMode::Normal
            &&& next.shows(files)
            &&& next.collapsed == prev.collapsed
            &&& next.screen == prev.screen
            &&& next.should_quit == prev.should_quit
            &&& next.viewport_height == prev.viewport_height
            &&& next.commit_log == prev.commit_log
            &&& next.commit_log_selected == prev.commit_log_selected
            &&& next.pager_content == prev.pager_content
        },
        DiffCommand::LineDown => next == (App { scroll: prev.scrolled_down(1), ..prev }),
        DiffCommand::LineUp => next == (App { scroll: prev.scrolled_up(1), ..prev }),
        DiffCommand::Top => next == (App { scroll: 0, ..prev }),
        DiffCommand::Bottom => next == (App { scroll: prev.max_scroll_spec(), ..prev }),
        DiffCommand::HalfDown => next == (App { scroll: prev.scrolled_down(prev.half_page()), ..prev }),
        DiffCommand::HalfUp => next == (App { scroll: prev.scrolled_up(prev.half_page()), ..prev }),
        DiffCommand::PageDown => next == (App {
            scroll: prev.scrolled_down(prev.viewport_height),
            ..prev
        }),
        DiffCommand::PageUp => next == (App { scroll: prev.scrolled_up(prev.viewport_height), ..prev }),
        DiffCommand::NextFile => next == (App { scroll: prev.next_file_scroll(), ..prev }),
        DiffCommand::PrevFile => next == (App { scroll: prev.prev_file_scroll(), ..prev }),
        DiffCommand::NextMatch => crate::app::next_match_post(prev, next),
        DiffCommand::PrevMatch => crate::app::prev_match_post(prev, next),
        DiffCommand::ToggleFold => crate::app::toggle_fold_post(prev, next, files),
        DiffCommand::FoldAll => {
            &&& next.shows(files)
            &&& next.collapsed_set() == prev.collapsed_set().union(crate::app::named_files(files))
            &&& next.unchanged_outside_lines(prev)
        },
        DiffCommand::UnfoldAll => {
            &&& next.shows(files)
            &&& next.collapsed_set().is_empty()
            &&& next.unchanged_outside_lines(prev)
        },
        DiffCommand::SearchForward => search_started(prev, next, true),
        DiffCommand::SearchBackward => search_started(prev, next, false),
        DiffCommand::ClearSearch => search_cleared(prev, next),
        DiffCommand::Page => {
            &&& next == (App { pager_content: next.pager_content, ..prev })
            &&& next.pager_content == if trim_spec(pager_text(prev.visible())).len() > 0 {
                Some(next.pager_content->0)
            } else {
                prev.pager_content
            }
            &&& trim_spec(pager_text(prev.visible())).len() > 0 ==> next.pager_content->0@
                == pager_text(prev.visible())
        },
        DiffCommand::OpenLog => next == prev,
        DiffCommand::Ignore => next == prev,
    }
}

// ── Normal mode — Diff screen ───────────────────────────────────

/// Apply a key on the diff screen.
fn handle_diff_key(app: &mut App, key: KeyPress, state: &RepoState) -> (r: Action)
    requires
        old(app).wf(),
    ensures
        final(app).wf(),
        diff_key_post(*old(app), *final(app), key, *state, r),
{
    match decode_diff_key(key) {
        DiffCommand::Quit => {
            app.should_quit = true;
        },
        DiffCommand::ToggleView => {
            app.toggle_view();
            let files = current_files(app, state);
            app.recompute_visible_lines(files);
        },
        DiffCommand::LineDown => app.scroll_down(1),
        DiffCommand::LineUp => app.scroll_up(1),
        DiffCommand::Top => app.scroll_to_top(),
        DiffCommand::Bottom => app.scroll_to_bottom(),
        DiffCommand::HalfDown => app.scroll_half_down(),
        DiffCommand::HalfUp => app.scroll_half_up(),
        DiffCommand::PageDown => {
            let h = app.viewport_height;
            app.scroll_down(h)
        },
        DiffCommand::PageUp => {
            let h = app.viewport_height;
            app.scroll_up(h)
        },
        DiffCommand::NextFile => app.next_file(),
        DiffCommand::PrevFile => app.prev_file(),
        DiffCommand::ToggleFold => {
            let files = current_files(app, state);
            app.toggle_file_fold(files);
        },
        DiffCommand::FoldAll => {
            let files = current_files(app, state);
            app.fold_all(files);
        },
        DiffCommand::UnfoldAll => {
            let files = current_files(app, state);
            app.unfold_all(files);
        },
        DiffCommand::SearchForward => app.enter_search(true),
        DiffCommand::SearchBackward => app.enter_search(false),
        DiffCommand::NextMatch => app.search_next(),
        DiffCommand::PrevMatch => app.search_prev(),
        DiffCommand::ClearSearch => app.clear_search(),
        DiffCommand::Page => {
            let content = visible_text(app);
            let cv = chars_of(content.as_str());
            let t = trimmed(&cv, 0, cv.len());
            assert(cv@.subrange(0, cv@.len() as int) =~= cv@);
            if !t.as_str().is_empty() {
                app.pager_content = Some(content);
            }
        },
        DiffCommand::OpenLog => {
            return Action::LoadCommitLog;
        },
        DiffCommand::Ignore => {},
    }
    Action::Nothing
}

/// What a key does on the commit log screen in normal mode, and the outside work it asks for.
pub open spec fn log_key_post(prev: App, next: App, key: KeyPress, r: Action) -> bool {
    let sel = prev.commit_log_selected as int;
    &&& r == if log_command(key) == LogCommand::Show && sel < prev.commit_log@.len() {
        Action::ShowCommit(prev.commit_log@[sel].hash)
    } else {
        Action::Nothing
    }
    &&& match log_command(key) {
        LogCommand::Back => search_cleared(App { screen: Screen::Diff, ..prev }, next),
        LogCommand::Quit => next == (App { should_quit: true, ..prev }),
        LogCommand::Down => next == (App {
            commit_log_selected: if prev.commit_log@.len() == 0 {
                prev.commit_log_selected
            } else if prev.commit_log_selected + 1 < prev.commit_log@.len() {
                (prev.commit_log_selected + 1) as usize
            } else {
                (prev.commit_log@.len() - 1) as usize
            },
            ..prev
        }),
        LogCommand::Up => next == (App {
            commit_log_selected: if prev.commit_log_selected > 0 {
                (prev.commit_log_selected - 1) as usize
            } else {
                0
            },
            ..prev
        }),
        LogCommand::NextMatch => crate::app::next_match_post(prev, next),
        LogCommand::PrevMatch => crate::app::prev_match_post(prev, next),
        LogCommand::First => next == (App { commit_log_selected: 0, ..prev }),
        LogCommand::Last => next == (App {
            commit_log_selected: if prev.commit_log@.len() > 0 {
                (prev.commit_log@.len() - 1) as usize
            } else {
                prev.commit_log_selected
            },
            ..prev
        }),
        LogCommand::Show => next == prev,
        LogCommand::SearchForward => search_started(prev, next, true),
        LogCommand::SearchBackward => search_started(prev, next, false),
        LogCommand::Ignore => next == prev,
    }
}

// ── Normal mode — Commit Log screen ─────────────────────────────

/// Apply a key on the commit log screen.
fn handle_commit_log_key(app: &mut App, key: KeyPress) -> (r: Action)
    requires
        old(app).wf(),
    ensures
        final(app).wf(),
        log_key_post(*old(app), *final(app), key, r),
{
    match decode_log_key(key) {
        LogCommand::Back => {
            app.screen = Screen::Diff;
            app.clear_search();
        },
        LogCommand::Quit => {
            app.should_quit = true;
        },
        LogCommand::Down => app.commit_log_down(),
        LogCommand::Up => app.commit_log_up(),
        LogCommand::First => {
            app.commit_log_selected = 0;
        },
        LogCommand::Last => {
            if app.commit_log.len() > 0 {
                app.commit_log_selected = app.commit_log.len() - 1;
            }
        },
        LogCommand::Show => {
            if app.commit_log_selected < app.commit_log.len() {
                return Action::ShowCommit(app.commit_log[app.commit_log_selected].hash.clone());
            }
        },
        LogCommand::SearchForward => app.enter_search(true),
        LogCommand::SearchBackward => app.enter_search(false),
        LogCommand::NextMatch => app.search_next(),
        LogCommand::PrevMatch => app.search_prev(),
        LogCommand::Ignore => {},
    }
    Action::Nothing
}

/// Show the fetched commits on the commit log screen, cursor on the first.
pub fn commit_log_loaded(app: &mut App, log: Vec<CommitEntry>)
    requires
        old(app).wf(),
    ensures
        final(app).wf(),
        final(app).commit_log == log,
        final(app).commit_log_selected == 0,
        final(app).screen == Screen::CommitLog,
        final(app).search.is_cleared(),
        final(app).input_mode == InputMode::Normal,
        final(app).scroll == old(app).scroll,
        final(app).visible_lines == old(app).visible_lines,
{
    app.commit_log = log;
    app.commit_log_selected = 0;
    app.screen = Screen::CommitLog;
    app.clear_search();
}

// ── Main loop decisions ─────────────────────────────────────────

/// The keys among events drained behind a change signal, in arrival order;
/// further change signals and resizes are absorbed by the refresh to come.
pub open spec fn burst_keys(es: Seq<AppEvent>) -> Seq<KeyPress>
    decreases es.len(),
{
    if es.len() == 0 {
        Seq::empty()
    } else {
        burst_keys(es.drop_last()) + match es.last() {
            AppEvent::Key(k) => seq![k],
            _ => Seq::empty(),
        }
    }
}

/// Pick out the keys to handle from the events queued behind a change signal.
pub fn keys_in_burst(drained: &Vec<AppEvent>) -> (r: Vec<KeyPress>)
    ensures
        r@ == burst_keys(drained@),
{
    let mut r: Vec<KeyPress> = Vec::new();
    let mut i: usize = 0;
    while i < drained.len()
        invariant
            i <= drained@.len(),
            r@ == burst_keys(drained@.subrange(0, i as int)),
        decreases drained@.len() - i,
    {
        assert(drained@.subrange(0, i + 1).drop_last() =~= drained@.subrange(0, i as int));
        let ghost before = r@;
        match drained[i] {
            AppEvent::Key(k) => {
                r.push(k);
                assert(r@ =~= before + seq![k]);
            },
            _ => {
                assert(before + Seq::<KeyPress>::empty() =~= before);
            },
        }
        i = i + 1;
    }
    assert(drained@.subrange(0, drained@.len() as int) =~= drained@);
    r
}

/// Rebuild the derived view state after the snapshot was replaced: the visible lines
/// of the current view and, when a search is active, its matches.
pub fn refresh(app: &mut App, state: &RepoState)
    requires
        old(app).wf(),
    ensures
        final(app).wf(),
        final(app).shows(files_view(current_files_spec(old(app).view, *state))),
        final(app).view == old(app).view,
        final(app).collapsed == old(app).collapsed,
        final(app).search.query == old(app).search.query,
        old(app).search.active ==> final(app).match_view() == query_hits(
            final(app).visible(),
            old(app).search.query@,
        ),
        !old(app).search.active ==> final(app).search == old(app).search,
{
    let files = current_files(app, state);
    app.recompute_visible_lines(files);
    if app.search.active {
        let lines = copy_lines(&app.visible_lines);
        app.recompute_matches(&lines);
    }
}

/// What one bounded poll of the terminal produced.
#[derive(Debug, Clone, Copy, PartialEq, Eq, Structural)]
pub enum ReadOutcome {
    /// Nothing arrived before the poll timed out.
    Timeout,
    Key(KeyPress),
    Resize,
    /// An input the dashboard does not use (mouse, focus, paste).
    Unused,
    /// Polling or reading failed.
    Failed,
}

/// What the input reader does next.
#[derive(Debug, Clone, Copy, PartialEq, Eq, Structural)]
pub enum ReaderAction {
    /// Sleep briefly and look at the pause flag again, reading nothing.
    Sleep,
    /// Poll again.
    Continue,
    /// Send this event to the main loop.
    Forward(AppEvent),
    /// Terminate silently.
    Stop,
}

/// The input reader's decision: while paused it reads nothing; otherwise keys and
/// resizes are forwarded, unused input and timeouts lead to the next poll, and a
/// failure ends the reader.
pub open spec fn reader_spec(paused: bool, outcome: ReadOutcome) -> ReaderAction {
    if paused {
        ReaderAction::Sleep
    } else {
        match outcome {
            ReadOutcome::Timeout => ReaderAction::Continue,
            ReadOutcome::Key(k) => ReaderAction::Forward(AppEvent::Key(k)),
            ReadOutcome::Resize => ReaderAction::Forward(AppEvent::Resize),
            ReadOutcome::Unused => ReaderAction::Continue,
            ReadOutcome::Failed => ReaderAction::Stop,
        }
    }
}

/// Decide the input reader's next step.
pub fn reader_action(paused: bool, outcome: ReadOutcome) -> (r: ReaderAction)
    ensures
        r == reader_spec(paused, outcome),
{
    if paused {
        return ReaderAction::Sleep;
    }
    match outcome {
        ReadOutcome::Timeout => ReaderAction::Continue,
        ReadOutcome::Key(k) => ReaderAction::Forward(AppEvent::Key(k)),
        ReadOutcome::Resize => ReaderAction::Forward(AppEvent::Resize),
        ReadOutcome::Unused => ReaderAction::Continue,
        ReadOutcome::Failed => ReaderAction::Stop,
    }
}

/// Who owns the terminal, in the hand-off to an external pager.
#[derive(Debug, Clone, Copy, PartialEq, Eq, Structural)]
pub enum PagerPhase {
    /// The dashboard owns the terminal and reads input.
    Running,
    /// Input reading is paused; the terminal is about to be released.
    Suspending,
    /// The external pager owns the terminal.
    Paged,
}

/// The controller's queue of events from the channel, and the pager hand-off phase.
pub struct InputGate {
    phase: PagerPhase,
    pending: Vec<AppEvent>,
    /// How many events were queued when input was paused.
    kept: usize,
}

/// What an `InputGate` holds.
pub struct GateView {
    pub phase: PagerPhase,
    pub pending: Seq<AppEvent>,
    /// The length of the queue at the last suspension: the events meant for the dashboard.
    pub kept: nat,
}

impl View for InputGate {
    type V = GateView;

    closed spec fn view(&self) -> GateView {
        GateView { phase: self.phase, pending: self.pending@, kept: self.kept as nat }
    }
}

/// An event arrives.
pub open spec fn arrive(g: GateView, e: AppEvent) -> GateView {
    GateView { pending: g.pending.push(e), ..g }
}

/// Events arrive in order.
pub open spec fn arrive_all(g: GateView, es: Seq<AppEvent>) -> GateView {
    GateView { pending: g.pending + es, ..g }
}

/// Input reading is paused before the terminal is released; the events queued so far
/// were meant for the dashboard and are marked to be kept.
pub open spec fn suspend_spec(g: GateView) -> GateView {
    GateView { phase: PagerPhase::Suspending, kept: g.pending.len(), ..g }
}

/// The pager takes the terminal.
pub open spec fn hand_over_spec(g: GateView) -> GateView {
    GateView { phase: PagerPhase::Paged, ..g }
}

/// The terminal is back: what queued during the pause refers to a stale screen and
/// is dropped, what was queued before it stays, and input reading resumes.
pub open spec fn resume_spec(g: GateView) -> GateView {
    let k = if g.kept <= g.pending.len() {
        g.kept
    } else {
        g.pending.len()
    };
    GateView { phase: PagerPhase::Running, pending: g.pending.subrange(0, k as int), kept: k }
}

impl InputGate {
    /// An empty queue; the dashboard owns the terminal.
    pub fn new() -> (r: InputGate)
        ensures
            r@.phase == PagerPhase::Running,
            r@.pending.len() == 0,
            r@.kept == 0,
    {
        InputGate { phase: PagerPhase::Running, pending: Vec::new(), kept: 0 }
    }

    /// The phase of the hand-off.
    pub fn phase(&self) -> (r: PagerPhase)
        ensures
            r == self@.phase,
    {
        self.phase
    }

    /// The pause flag the input reader observes: set from suspension until resumption.
    pub fn input_paused(&self) -> (r: bool)
        ensures
            r == (self@.phase != PagerPhase::Running),
    {
        match self.phase {
            PagerPhase::Running => false,
            _ => true,
        }
    }

    /// Queue an event taken from the channel.
    pub fn enqueue(&mut self, e: AppEvent)
        ensures
            final(self)@ == arrive(old(self)@, e),
    {
        self.pending.push(e);
        assert(final(self)@.pending =~= arrive(old(self)@, e).pending);
    }

    /// The oldest queued event, while the dashboard owns the terminal; nothing otherwise.
    pub fn next_event(&mut self) -> (r: Option<AppEvent>)
        ensures
            old(self)@.phase == PagerPhase::Running && old(self)@.pending.len() > 0 ==> {
                &&& r == Some(old(self)@.pending[0])
                &&& final(self)@.pending == old(self)@.pending.drop_first()
                &&& final(self)@.phase == old(self)@.phase
            },
            !(old(self)@.phase == PagerPhase::Running && old(self)@.pending.len() > 0) ==> {
                &&& r is None
                &&& final(self)@ == old(self)@
            },
    {
        match self.phase {
            PagerPhase::Running => {
                if self.pending.len() > 0 {
                    let e = self.pending.remove(0);
                    assert(self.pending@ =~= old(self)@.pending.drop_first());
                    Some(e)
                } else {
                    None
                }
            },
            _ => None,
        }
    }

    /// Pause input reading ahead of releasing the terminal, keeping what is queued.
    pub fn suspend(&mut self)
        requires
            old(self)@.phase == PagerPhase::Running,
        ensures
            final(self)@ == suspend_spec(old(self)@),
    {
        self.phase = PagerPhase::Suspending;
        self.kept = self.pending.len();
    }

    /// Record that the pager has the terminal.
    pub fn hand_over(&mut self)
        requires
            old(self)@.phase == PagerPhase::Suspending,
        ensures
            final(self)@ == hand_over_spec(old(self)@),
    {
        self.phase = PagerPhase::Paged;
    }

    /// The pager has exited and the terminal is back: drop what queued during the
    /// pause, keep what was queued before it, and resume input.
    pub fn resume(&mut self)
        requires
            old(self)@.phase == PagerPhase::Paged,
        ensures
            final(self)@ == resume_spec(old(self)@),
    {
        if self.kept > self.pending.len() {
            self.kept = self.pending.len();
        }
        self.pending.truncate(self.kept);
        self.phase = PagerPhase::Running;
        assert(final(self)@.pending =~= resume_spec(old(self)@).pending);
    }
}

/// Pausing input for the pager and resuming afterwards drops every event that arrived
/// in between and keeps every event queued before the pause: once the dashboard runs
/// again, the queue holds the events from before the pause followed by those that
/// arrived after resumption, in order.
pub proof fn lemma_paused_input_dropped(
    g: GateView,
    while_suspending: Seq<AppEvent>,
    while_paged: Seq<AppEvent>,
    after: Seq<AppEvent>,
)
    requires
        g.phase == PagerPhase::Running,
    ensures
        ({
            let paused = arrive_all(
                hand_over_spec(arrive_all(suspend_spec(g), while_suspending)),
                while_paged,
            );
            let resumed = arrive_all(resume_spec(paused), after);
            &&& paused.phase == PagerPhase::Paged
            &&& resumed.phase == PagerPhase::Running
            &&& resumed.pending == g.pending + after
        }),
{
    let paused = arrive_all(
        hand_over_spec(arrive_all(suspend_spec(g), while_suspending)),
        while_paged,
    );
    assert(paused.pending.subrange(0, g.pending.len() as int) =~= g.pending);
}
} // verus!
