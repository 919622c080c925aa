//! The view state: active view, fold set, flattened visible lines, scroll and search.
use vstd::prelude::*;

use crate::diff::{DiffLine, DiffLineView, FileDiff, FileDiffView, files_view, lines_view};
use crate::git::CommitEntry;
use crate::text::{find_bytes, hits_from, lower_of, pop_char, push_char, to_lower};
use vstd::utf8::encode_utf8;

verus! {

/// Which diff view is currently displayed.
#[derive(Debug, Clone, Copy, PartialEq, Eq, Structural)]
pub enum DiffView {
    Unstaged,
    Staged,
}

/// Input mode — determines how keystrokes are routed.
#[derive(Debug, Clone, Copy, PartialEq, Eq, Structural)]
pub enum InputMode {
    Normal,
    /// typing in the /? search bar
    Search,
}

/// Which screen is currently visible.
#[derive(Debug, Clone, Copy, PartialEq, Eq, Structural)]
pub enum Screen {
    /// current staged/unstaged diff view
    Diff,
    /// list of recent commits
    CommitLog,
}

/// Tracks the current search query, matches, and navigation cursor.
#[derive(Debug, Clone)]
pub struct SearchState {
    pub query: String,
    /// true = /, false = ?
    pub forward: bool,
    /// matches exist and are navigable
    pub active: bool,
    /// (line_idx, byte_start, byte_end)
    pub matches: Vec<(usize, usize, usize)>,
    pub current_match: usize,
}

impl SearchState {
    /// An empty query, searching forward-off, with nothing matched.
    pub open spec fn is_cleared(&self) -> bool {
        &&& self.query@.len() == 0
        &&& !self.forward
        &&& !self.active
        &&& self.matches@.len() == 0
        &&& self.current_match == 0
    }

    /// The matches exist whenever the search is active.
    pub open spec fn wf(&self) -> bool {
        self.active ==> self.matches@.len() > 0
    }
}

impl Default for SearchState {
    /// The cleared search.
    fn default() -> (r: SearchState)
        ensures
            r.is_cleared(),
    {
        SearchState {
            query: String::new(),
            forward: false,
            active: false,
            matches: Vec::new(),
            current_match: 0,
        }
    }
}

/// Largest scroll offset for `total` lines in a viewport of `height` rows.
pub open spec fn max_scroll_of(total: u16, height: u16) -> u16 {
    if total > height {
        (total - height) as u16
    } else {
        0
    }
}

/// The number of lines the scroll arithmetic counts: the length, capped at `u16::MAX`.
pub open spec fn line_count_of(len: nat) -> u16 {
    if len > u16::MAX {
        u16::MAX
    } else {
        len as u16
    }
}

/// The names of a list of strings.
pub open spec fn name_set(v: Seq<String>) -> Set<Seq<char>> {
    Set::new(|n: Seq<char>| exists|i: int| 0 <= i < v.len() && v[i]@ == n)
}

/// No name appears twice.
pub open spec fn names_unique(v: Seq<String>) -> bool {
    forall|i: int, j: int| 0 <= i < v.len() && 0 <= j < v.len() && i != j ==> v[i]@ != v[j]@
}

/// The synthetic header of a file, if it has a name.
pub open spec fn header_part(fd: FileDiffView) -> Seq<DiffLineView> {
    if fd.filename.len() == 0 {
        Seq::empty()
    } else {
        seq![DiffLineView::FileHeader { filename: fd.filename, added: fd.added, removed: fd.removed }]
    }
}

/// The body lines of a file that show: none when it is folded.
pub open spec fn body_part(fd: FileDiffView, collapsed: Set<Seq<char>>) -> Seq<DiffLineView> {
    if collapsed.contains(fd.filename) {
        Seq::empty()
    } else {
        fd.lines
    }
}

/// Each file's header followed by its body unless folded, in file order.
pub open spec fn visible_spec(files: Seq<FileDiffView>, collapsed: Set<Seq<char>>) -> Seq<
    DiffLineView,
>
    decreases files.len(),
{
    if files.len() == 0 {
        Seq::empty()
    } else {
        visible_spec(files.drop_last(), collapsed) + header_part(files.last()) + body_part(
            files.last(),
            collapsed,
        )
    }
}

/// The indices in `visible_spec(files, collapsed)` at which the synthetic headers stand.
pub open spec fn header_positions_spec(files: Seq<FileDiffView>, collapsed: Set<Seq<char>>) -> Seq<
    int,
>
    decreases files.len(),
{
    if files.len() == 0 {
        Seq::empty()
    } else {
        let prev = header_positions_spec(files.drop_last(), collapsed);
        if files.last().filename.len() == 0 {
            prev
        } else {
            prev.push(visible_spec(files.drop_last(), collapsed).len() as int)
        }
    }
}

/// The first index `i >= from` with `ps[i] > cur`, or -1.
pub open spec fn first_after(ps: Seq<int>, cur: int, from: int) -> int
    decreases ps.len() - from,
{
    if from >= ps.len() || from < 0 {
        -1
    } else if ps[from] > cur {
        from
    } else {
        first_after(ps, cur, from + 1)
    }
}

/// The last index `i < k` with `ps[i] < cur`, or -1.
pub open spec fn last_before(ps: Seq<int>, cur: int, k: int) -> int
    decreases k,
{
    if k <= 0 {
        -1
    } else if ps[k - 1] < cur {
        k - 1
    } else {
        last_before(ps, cur, k - 1)
    }
}

/// The last index `i < k` with `ps[i] <= cur`, or -1.
pub open spec fn last_at_or_before(ps: Seq<int>, cur: int, k: int) -> int
    decreases k,
{
    if k <= 0 {
        -1
    } else if ps[k - 1] <= cur {
        k - 1
    } else {
        last_at_or_before(ps, cur, k - 1)
    }
}

/// A found index lies in range and names a position past `cur`.
pub proof fn lemma_first_after(ps: Seq<int>, cur: int, from: int)
    requires
        0 <= from,
    ensures
        first_after(ps, cur, from) == -1 || (from <= first_after(ps, cur, from) < ps.len()
            && ps[first_after(ps, cur, from)] > cur),
    decreases ps.len() - from,
{
    if from < ps.len() && ps[from] <= cur {
        lemma_first_after(ps, cur, from + 1);
    }
}

/// A found index lies below `k` and names a position before `cur`.
pub proof fn lemma_last_before(ps: Seq<int>, cur: int, k: int)
    requires
        k <= ps.len(),
    ensures
        last_before(ps, cur, k) == -1 || (0 <= last_before(ps, cur, k) < k && ps[last_before(
            ps,
            cur,
            k,
        )] < cur),
    decreases k,
{
    if k > 0 && ps[k - 1] >= cur {
        lemma_last_before(ps, cur, k - 1);
    }
}

/// A found index lies below `k` and names a position at or before `cur`.
pub proof fn lemma_last_at_or_before(ps: Seq<int>, cur: int, k: int)
    requires
        k <= ps.len(),
    ensures
        last_at_or_before(ps, cur, k) == -1 || (0 <= last_at_or_before(ps, cur, k) < k
            && ps[last_at_or_before(ps, cur, k)] <= cur),
    decreases k,
{
    if k > 0 && ps[k - 1] > cur {
        lemma_last_at_or_before(ps, cur, k - 1);
    }
}

/// The non-empty filenames of `files`.
pub open spec fn named_files(files: Seq<FileDiffView>) -> Set<Seq<char>> {
    Set::new(|n: Seq<char>| n.len() > 0 && exists|i: int| 0 <= i < files.len() && files[i].filename == n)
}

/// Appending a file adds its name, if it has one.
pub proof fn lemma_named_files_push(files: Seq<FileDiffView>, fd: FileDiffView)
    ensures
        named_files(files.push(fd)) == if fd.filename.len() > 0 {
            named_files(files).insert(fd.filename)
        } else {
            named_files(files)
        },
{
    let a = named_files(files.push(fd));
    let b = if fd.filename.len() > 0 {
        named_files(files).insert(fd.filename)
    } else {
        named_files(files)
    };
    assert forall|n: Seq<char>| a.contains(n) implies b.contains(n) by {
        let i = choose|i: int| 0 <= i < files.len() + 1 && files.push(fd)[i].filename == n;
        if i < files.len() {
            assert(files.push(fd)[i] == files[i]);
        }
    }
    assert forall|n: Seq<char>| b.contains(n) implies a.contains(n) by {
        if n == fd.filename && fd.filename.len() > 0 {
            assert(files.push(fd)[files.len() as int] == fd);
        } else {
            let i = choose|i: int| 0 <= i < files.len() && files[i].filename == n;
            assert(files.push(fd)[i] == files[i]);
        }
    }
    assert(a =~= b);
}

/// The bytes a line is searched in: its text, lowercased.
pub open spec fn line_key(l: DiffLineView) -> Seq<u8> {
    encode_utf8(lower_of(l.text()))
}

/// The bytes searched for: the query, lowercased.
pub open spec fn needle_of(q: Seq<char>) -> Seq<u8> {
    encode_utf8(lower_of(q))
}

/// Spans within line `k`, tagged with the line index.
pub open spec fn tag_hits(k: int, hs: Seq<(int, int)>) -> Seq<(int, int, int)> {
    hs.map_values(|h: (int, int)| (k, h.0, h.1))
}

/// Every match of `needle` in `lines`, as (line index, byte start, byte end), in line order.
pub open spec fn all_hits(lines: Seq<DiffLineView>, needle: Seq<u8>) -> Seq<(int, int, int)>
    decreases lines.len(),
{
    if lines.len() == 0 {
        Seq::empty()
    } else {
        all_hits(lines.drop_last(), needle) + tag_hits(
            lines.len() - 1,
            hits_from(line_key(lines.last()), needle, 0),
        )
    }
}

/// The matches of `query` in `lines`: none for an empty query.
pub open spec fn query_hits(lines: Seq<DiffLineView>, query: Seq<char>) -> Seq<(int, int, int)> {
    if query.len() == 0 {
        Seq::empty()
    } else {
        all_hits(lines, needle_of(query))
    }
}

/// The first match index whose line is at or after `line`, else 0.
pub open spec fn first_match_spec(ms: Seq<(int, int, int)>, line: int, i: int) -> int
    decreases ms.len() - i,
{
    if i >= ms.len() || i < 0 {
        0
    } else if ms[i].0 >= line {
        i
    } else {
        first_match_spec(ms, line, i + 1)
    }
}

/// The last match index (below `k`) whose line is at or before `line`, else the last index.
pub open spec fn last_match_spec(ms: Seq<(int, int, int)>, line: int, k: int) -> int
    decreases k,
{
    if k <= 0 {
        if ms.len() > 0 {
            ms.len() - 1
        } else {
            0
        }
    } else if ms[k - 1].0 <= line {
        k - 1
    } else {
        last_match_spec(ms, line, k - 1)
    }
}

/// The scroll offset that shows line `li` with five lines above it, clamped to `max`.
pub open spec fn jump_target(li: int, max: u16) -> u16 {
    if li - 5 <= max as int {
        if li >= 5 {
            (li - 5) as u16
        } else {
            0
        }
    } else {
        max
    }
}

/// The wrapping successor of match index `c` among `n` matches.
pub open spec fn next_index(c: int, n: int) -> int {
    (c + 1) % n
}

/// Match index `c` after `k` steps forward among `n` matches.
pub open spec fn advance(c: int, n: int, k: nat) -> int
    decreases k,
{
    if k == 0 {
        c
    } else {
        next_index(advance(c, n, (k - 1) as nat), n)
    }
}

/// What toggling the fold of the file under the cursor does: flip that file's
/// membership in the fold set and rebuild the lines, or nothing outside any file.
pub open spec fn toggle_fold_post(prev: App, next: App, files: Seq<FileDiffView>) -> bool {
    match prev.file_at_spec() {
        None => next == prev,
        Some(name) => {
            &&& next.collapsed_set() == if prev.collapsed_set().contains(name) {
                prev.collapsed_set().remove(name)
            } else {
                prev.collapsed_set().insert(name)
            }
            &&& next.shows(files)
            &&& next.unchanged_outside_lines(prev)
            &&& next.scroll == if prev.scroll <= next.max_scroll_spec() {
                prev.scroll
            } else {
                next.max_scroll_spec()
            }
        },
    }
}

/// What "next match" does: nothing without an active search; otherwise the cursor
/// moves to the wrapping successor and the view scrolls to it.
pub open spec fn next_match_post(prev: App, next: App) -> bool {
    &&& !prev.search.active ==> next == prev
    &&& prev.search.active ==> {
        let ms = prev.match_view();
        let c = next.search.current_match as int;
        &&& c == next_index(prev.search.current_match as int, ms.len() as int)
        &&& next.scroll == jump_target(ms[c].0, prev.max_scroll_spec())
        &&& next.search == (SearchState { current_match: c as usize, ..prev.search })
        &&& next.unchanged_but_search_scroll(prev)
    }
}

/// What "previous match" does: nothing without an active search; otherwise the cursor
/// moves back one, from the first to the last, and the view scrolls to it.
pub open spec fn prev_match_post(prev: App, next: App) -> bool {
    &&& !prev.search.active ==> next == prev
    &&& prev.search.active ==> {
        let ms = prev.match_view();
        let c = next.search.current_match as int;
        &&& c == if prev.search.current_match == 0 {
            ms.len() - 1
        } else {
            prev.search.current_match - 1
        }
        &&& c < ms.len() ==> next.scroll == jump_target(ms[c].0, prev.max_scroll_spec())
        &&& c >= ms.len() ==> next.scroll == prev.scroll
        &&& next.search == (SearchState { current_match: c as usize, ..prev.search })
        &&& next.unchanged_but_search_scroll(prev)
    }
}

/// Each header position lies strictly after the one before it.
pub open spec fn positions_increasing(ps: Seq<usize>) -> bool {
    forall|i: int, j: int| 0 <= i < j < ps.len() ==> ps[i] < ps[j]
}

/// What confirming a query does: back to normal mode, the matches of the query in
/// `lines`, and, when there are any, the cursor on the nearest one in the search
/// direction with the view scrolled to it; the scroll stays when there are none.
pub open spec fn confirm_post(prev: App, next: App, lines: Seq<DiffLineView>) -> bool {
    &&& next.input_mode == InputMode::Normal
    &&& next.search.query == prev.search.query
    &&& next.search.forward == prev.search.forward
    &&& next.match_view() == query_hits(lines, prev.search.query@)
    &&& next.search.active == (next.match_view().len() > 0)
    &&& next.match_view().len() == 0 ==> {
        &&& next.scroll == prev.scroll
        &&& next.search.current_match == prev.search.current_match
    }
    &&& next.match_view().len() > 0 ==> {
        let ms = next.match_view();
        let c = next.search.current_match as int;
        &&& c == if prev.search.forward {
            first_match_spec(ms, prev.scroll as int, 0)
        } else {
            last_match_spec(ms, prev.scroll + prev.viewport_height, ms.len() as int)
        }
        &&& 0 <= c < ms.len()
        &&& next.scroll == jump_target(ms[c].0, prev.max_scroll_spec())
    }
    &&& next.should_quit == prev.should_quit
    &&& next.view == prev.view
    &&& next.screen == prev.screen
    &&& next.diff_line_count == prev.diff_line_count
    &&& next.viewport_height == prev.viewport_height
    &&& next.collapsed == prev.collapsed
    &&& next.visible_lines == prev.visible_lines
    &&& next.file_header_positions == prev.file_header_positions
    &&& next.commit_log == prev.commit_log
    &&& next.commit_log_selected == prev.commit_log_selected
    &&& next.pager_content == prev.pager_content
}

/// Central application state — owned exclusively by the main thread.
pub struct App {
    /// Whether the app should exit on the next loop iteration.
    pub should_quit: bool,
    /// Current diff view (staged vs unstaged).
    pub view: DiffView,
    /// Vertical scroll offset (in lines) into the diff output.
    pub scroll: u16,
    /// Total number of renderable diff lines (set after each git query).
    pub diff_line_count: u16,
    /// Height of the diff viewport in terminal rows (set each render).
    pub viewport_height: u16,
    /// Current screen being displayed.
    pub screen: Screen,
    /// Current input mode.
    pub input_mode: InputMode,
    /// Search state.
    pub search: SearchState,
    /// Recent commits from `git log`.
    pub commit_log: Vec<CommitEntry>,
    /// Cursor position in the commit log list.
    pub commit_log_selected: usize,
    /// When set, the main loop should suspend the TUI and pipe this
    /// content to the user's pager.
    pub pager_content: Option<String>,
    /// Filenames whose sections are currently collapsed, each once.
    pub collapsed: Vec<String>,
    /// Flattened diff lines including synthetic FileHeader entries.
    pub visible_lines: Vec<DiffLine>,
    /// Indices into `visible_lines` where FileHeader lines appear.
    pub file_header_positions: Vec<usize>,
}

impl App {
    /// Largest valid scroll offset.
    pub open spec fn max_scroll_spec(&self) -> u16 {
        max_scroll_of(self.diff_line_count, self.viewport_height)
    }

    /// `0 <= scroll <= max(0, totalLines - viewportHeight)`.
    pub open spec fn scroll_ok(&self) -> bool {
        self.scroll <= self.max_scroll_spec()
    }

    /// The set of folded filenames.
    pub open spec fn collapsed_set(&self) -> Set<Seq<char>> {
        name_set(self.collapsed@)
    }

    /// The visible lines as views.
    pub open spec fn visible(&self) -> Seq<DiffLineView> {
        lines_view(self.visible_lines@)
    }

    /// The header positions as integers.
    pub open spec fn positions(&self) -> Seq<int> {
        self.file_header_positions@.map_values(|p: usize| p as int)
    }

    /// The state invariant that every operation keeps.
    pub open spec fn wf(&self) -> bool {
        &&& self.scroll_ok()
        &&& self.diff_line_count == line_count_of(self.visible_lines@.len())
        &&& self.search.wf()
        &&& names_unique(self.collapsed@)
        &&& forall|i: int|
            0 <= i < self.file_header_positions@.len() ==> self.file_header_positions@[i]
                < self.visible_lines@.len()
        &&& positions_increasing(self.file_header_positions@)
        &&& self.commit_log_selected == 0 || self.commit_log_selected < self.commit_log@.len()
    }

    /// The visible lines and header positions are those of `files` under the current fold set.
    pub open spec fn shows(&self, files: Seq<FileDiffView>) -> bool {
        &&& self.visible() == visible_spec(files, self.collapsed_set())
        &&& self.positions() == header_positions_spec(files, self.collapsed_set())
    }

    /// A fresh state: unstaged diff screen, nothing shown, nothing folded, no search.
    pub fn new() -> (r: App)
        ensures
            r.wf(),
            !r.should_quit,
            r.view == DiffView::Unstaged,
            r.scroll == 0,
            r.diff_line_count == 0,
            r.viewport_height == 0,
            r.screen == Screen::Diff,
            r.input_mode == InputMode::Normal,
            r.search.is_cleared(),
            r.commit_log@.len() == 0,
            r.commit_log_selected == 0,
            r.pager_content is None,
            r.collapsed@.len() == 0,
            r.visible_lines@.len() == 0,
            r.file_header_positions@.len() == 0,
    {
        App {
            should_quit: false,
            view: DiffView::Unstaged,
            scroll: 0,
            diff_line_count: 0,
            viewport_height: 0,
            screen: Screen::Diff,
            input_mode: InputMode::Normal,
            search: SearchState::default(),
            commit_log: Vec::new(),
            commit_log_selected: 0,
            pager_content: None,
            collapsed: Vec::new(),
            visible_lines: Vec::new(),
            file_header_positions: Vec::new(),
        }
    }

    /// Largest valid scroll offset.
    fn max_scroll(&self) -> (r: u16)
        ensures
            r == self.max_scroll_spec(),
    {
        self.diff_line_count.saturating_sub(self.viewport_height)
    }

    /// Toggle between staged and unstaged views, resetting scroll.
    pub fn toggle_view(&mut self)
        requires
            old(self).wf(),
        ensures
            final(self).wf(),
            final(self).view != old(self).view,
            final(self).scroll == 0,
            final(self).search.is_cleared(),
            final(self).input_mode == InputMode::Normal,
            final(self).visible_lines == old(self).visible_lines,
            final(self).collapsed == old(self).collapsed,
            final(self).diff_line_count == old(self).diff_line_count,
            final(self).viewport_height == old(self).viewport_height,
            final(self).screen == old(self).screen,
            final(self).should_quit == old(self).should_quit,
            final(self).commit_log == old(self).commit_log,
            final(self).commit_log_selected == old(self).commit_log_selected,
            final(self).pager_content == old(self).pager_content,
            final(self).file_header_positions == old(self).file_header_positions,
    {
        self.view = match self.view {
            DiffView::Unstaged => DiffView::Staged,
            DiffView::Staged => DiffView::Unstaged,
        };
        self.scroll = 0;
        self.clear_search();
    }

    /// Scroll down by `n` lines, clamped to content bounds.
    pub fn scroll_down(&mut self, n: u16)
        requires
            old(self).wf(),
        ensures
            final(self).wf(),
            final(self).scroll == old(self).scrolled_down(n),
            final(self).unchanged_but_scroll(*old(self)),
    {
        let max = self.max_scroll();
        let target: u32 = self.scroll as u32 + n as u32;
        self.scroll = if target <= max as u32 {
            target as u16
        } else {
            max
        };
    }

    /// Everything but the scroll offset is as in `prev`.
    pub open spec fn unchanged_but_scroll(&self, prev: App) -> bool {
        &&& self.should_quit == prev.should_quit
        &&& self.view == prev.view
        &&& self.diff_line_count == prev.diff_line_count
        &&& self.viewport_height == prev.viewport_height
        &&& self.screen == prev.screen
        &&& self.input_mode == prev.input_mode
        &&& self.search == prev.search
        &&& self.commit_log == prev.commit_log
        &&& self.commit_log_selected == prev.commit_log_selected
        &&& self.pager_content == prev.pager_content
        &&& self.collapsed == prev.collapsed
        &&& self.visible_lines == prev.visible_lines
        &&& self.file_header_positions == prev.file_header_positions
    }

    /// Scroll up by `n` lines, clamped to 0.
    pub fn scroll_up(&mut self, n: u16)
        requires
            old(self).wf(),
        ensures
            final(self).wf(),
            final(self).scroll == old(self).scrolled_up(n),
            final(self).unchanged_but_scroll(*old(self)),
    {
        self.scroll = self.scroll.saturating_sub(n);
    }

    /// Jump to the top of the diff.
    pub fn scroll_to_top(&mut self)
        requires
            old(self).wf(),
        ensures
            final(self).wf(),
            final(self).scroll == 0,
            final(self).unchanged_but_scroll(*old(self)),
    {
        self.scroll = 0;
    }

    /// Jump to the bottom of the diff.
    pub fn scroll_to_bottom(&mut self)
        requires
            old(self).wf(),
        ensures
            final(self).wf(),
            final(self).scroll == old(self).max_scroll_spec(),
            final(self).unchanged_but_scroll(*old(self)),
    {
        self.scroll = self.max_scroll();
    }

    /// Half the viewport height, at least one line.
    pub open spec fn half_page(&self) -> u16 {
        if self.viewport_height / 2 >= 1 {
            (self.viewport_height / 2) as u16
        } else {
            1
        }
    }

    /// The scroll offset after moving down `n` lines: clamped to the largest valid offset.
    pub open spec fn scrolled_down(&self, n: u16) -> u16 {
        if self.scroll + n <= self.max_scroll_spec() {
            (self.scroll + n) as u16
        } else {
            self.max_scroll_spec()
        }
    }

    /// The scroll offset after moving up `n` lines: clamped to 0.
    pub open spec fn scrolled_up(&self, n: u16) -> u16 {
        if self.scroll >= n {
            (self.scroll - n) as u16
        } else {
            0
        }
    }

    /// Scroll down by half a page.
    pub fn scroll_half_down(&mut self)
        requires
            old(self).wf(),
        ensures
            final(self).wf(),
            final(self).scroll == old(self).scrolled_down(old(self).half_page()),
            final(self).unchanged_but_scroll(*old(self)),
    {
        let half = self.viewport_height / 2;
        self.scroll_down(if half >= 1 { half } else { 1 });
    }

    /// Scroll up by half a page.
    pub fn scroll_half_up(&mut self)
        requires
            old(self).wf(),
        ensures
            final(self).wf(),
            final(self).scroll == old(self).scrolled_up(old(self).half_page()),
            final(self).unchanged_but_scroll(*old(self)),
    {
        let half = self.viewport_height / 2;
        self.scroll_up(if half >= 1 { half } else { 1 });
    }

    /// Take the viewport height the last render measured, re-clamping the scroll offset.
    pub fn set_viewport_height(&mut self, height: u16)
        requires
            old(self).wf(),
        ensures
            final(self).wf(),
            final(self).viewport_height == height,
            final(self).scroll == if old(self).scroll <= final(self).max_scroll_spec() {
                old(self).scroll
            } else {
                final(self).max_scroll_spec()
            },
            final(self).visible_lines == old(self).visible_lines,
            final(self).diff_line_count == old(self).diff_line_count,
            final(self).search == old(self).search,
    {
        self.viewport_height = height;
        self.reclamp();
    }

    // ── File sections (collapse / navigation) ──────────────────

    /// Whether `name` is folded.
    fn is_collapsed(&self, name: &String) -> (r: bool)
        ensures
            r == self.collapsed_set().contains(name@),
    {
        let mut i: usize = 0;
        while i < self.collapsed.len()
            invariant
                i <= self.collapsed@.len(),
                forall|j: int| 0 <= j < i ==> self.collapsed@[j]@ != name@,
            decreases self.collapsed@.len() - i,
        {
            if self.collapsed[i] == *name {
                assert(self.collapsed_set().contains(name@)) by {
                    assert(self.collapsed@[i as int]@ == name@);
                }
                return true;
            }
            i = i + 1;
        }
        false
    }

    /// Re-clamp the scroll offset and recount the lines after `visible_lines` changed.
    fn reclamp(&mut self)
        ensures
            final(self).diff_line_count == line_count_of(old(self).visible_lines@.len()),
            final(self).scroll == if old(self).scroll <= final(self).max_scroll_spec() {
                old(self).scroll
            } else {
                final(self).max_scroll_spec()
            },
            final(self).scroll_ok(),
            final(self).visible_lines == old(self).visible_lines,
            final(self).file_header_positions == old(self).file_header_positions,
            final(self).collapsed == old(self).collapsed,
            final(self).search == old(self).search,
            final(self).viewport_height == old(self).viewport_height,
            final(self).commit_log == old(self).commit_log,
            final(self).commit_log_selected == old(self).commit_log_selected,
            final(self).view == old(self).view,
            final(self).screen == old(self).screen,
            final(self).input_mode == old(self).input_mode,
            final(self).should_quit == old(self).should_quit,
            final(self).pager_content == old(self).pager_content,
    {
        let len = self.visible_lines.len();
        self.diff_line_count = if len > 65535 {
            65535
        } else {
            len as u16
        };
        let max = self.max_scroll();
        if self.scroll > max {
            self.scroll = max;
        }
    }

    /// Rebuild `visible_lines` and `file_header_positions` from structured file diffs.
    pub fn recompute_visible_lines(&mut self, files: &[FileDiff])
        requires
            old(self).wf(),
        ensures
            final(self).wf(),
            final(self).shows(files_view(files@)),
            final(self).same_but_lines(*old(self)),
            final(self).scroll == if old(self).scroll <= final(self).max_scroll_spec() {
                old(self).scroll
            } else {
                final(self).max_scroll_spec()
            },
    {
        let ghost fv = files_view(files@);
        let ghost cs = self.collapsed_set();
        self.visible_lines.clear();
        self.file_header_positions.clear();
        assert(self.visible() =~= visible_spec(fv.subrange(0, 0), cs));
        assert(self.positions() =~= header_positions_spec(fv.subrange(0, 0), cs));
        let mut k: usize = 0;
        while k < files.len()
            invariant
                k <= files@.len(),
                fv == files_view(files@),
                cs == self.collapsed_set(),
                old(self).wf(),
                self.collapsed == old(self).collapsed,
                self.visible() == visible_spec(fv.subrange(0, k as int), cs),
                self.positions() == header_positions_spec(fv.subrange(0, k as int), cs),
                forall|i: int|
                    0 <= i < self.file_header_positions@.len() ==> self.file_header_positions@[i]
                        < self.visible_lines@.len(),
                positions_increasing(self.file_header_positions@),
                self.same_but_lines(*old(self)),
                self.scroll == old(self).scroll,
                self.diff_line_count == old(self).diff_line_count,
            decreases files@.len() - k,
        {
            let fd = &files[k];
            let ghost prev_vis = self.visible();
            let ghost prev_pos = self.positions();
            let ghost sub = fv.subrange(0, k + 1);
            assert(sub.drop_last() =~= fv.subrange(0, k as int));
            assert(sub.last() == fd@);
            if !fd.filename.as_str().is_empty() {
                let at = self.visible_lines.len();
                self.file_header_positions.push(at);
                self.visible_lines.push(
                    DiffLine::FileHeader {
                        filename: fd.filename.clone(),
                        added: fd.added,
                        removed: fd.removed,
                    },
                );
                assert(self.positions() =~= prev_pos.push(at as int));
                assert(self.visible() =~= prev_vis + header_part(fd@));
            } else {
                assert(self.visible() =~= prev_vis + header_part(fd@));
            }
            let ghost mid_vis = self.visible();
            if !self.is_collapsed(&fd.filename) {
                let mut j: usize = 0;
                while j < fd.lines.len()
                    invariant
                        j <= fd.lines@.len(),
                        fd == &files@[k as int],
                        self.visible() == mid_vis + lines_view(fd.lines@).subrange(0, j as int),
                        self.visible_lines@.len() >= mid_vis.len(),
                        forall|i: int|
                            0 <= i < self.file_header_positions@.len()
                                ==> self.file_header_positions@[i] < self.visible_lines@.len(),
                        positions_increasing(self.file_header_positions@),
                        cs == self.collapsed_set(),
                        self.collapsed == old(self).collapsed,
                        self.positions() == header_positions_spec(sub, cs),
                        self.same_but_lines(*old(self)),
                        self.scroll == old(self).scroll,
                        self.diff_line_count == old(self).diff_line_count,
                    decreases fd.lines@.len() - j,
                {
                    let ghost before = self.visible();
                    self.visible_lines.push(fd.lines[j].duplicate());
                    assert(self.visible() =~= before.push(fd.lines@[j as int]@));
                    assert(lines_view(fd.lines@).subrange(0, j + 1) =~= lines_view(
                        fd.lines@,
                    ).subrange(0, j as int).push(fd.lines@[j as int]@));
                    j = j + 1;
                }
                assert(lines_view(fd.lines@).subrange(0, j as int) =~= fd@.lines);
            } else {
                assert(self.visible() =~= mid_vis + body_part(fd@, cs));
            }
            assert(self.visible() =~= visible_spec(sub, cs));
            k = k + 1;
        }
        assert(fv.subrange(0, files@.len() as int) =~= fv);
        self.reclamp();
    }

    /// The scroll offset at the first file header after the current one, clamped;
    /// unchanged when there is none.
    pub open spec fn next_file_scroll(&self) -> u16 {
        let h = first_after(self.positions(), self.scroll as int, 0);
        if h < 0 {
            self.scroll
        } else if self.positions()[h] <= self.max_scroll_spec() {
            self.positions()[h] as u16
        } else {
            self.max_scroll_spec()
        }
    }

    /// The scroll offset at the last file header before the current one; unchanged
    /// when there is none.
    pub open spec fn prev_file_scroll(&self) -> u16 {
        let ps = self.positions();
        let h = last_before(ps, self.scroll as int, ps.len() as int);
        if h < 0 {
            self.scroll
        } else {
            ps[h] as u16
        }
    }

    /// Jump scroll to the next file header after the current position.
    pub fn next_file(&mut self)
        requires
            old(self).wf(),
        ensures
            final(self).wf(),
            final(self).unchanged_but_scroll(*old(self)),
            final(self).scroll == old(self).next_file_scroll(),
    {
        let current = self.scroll as usize;
        let ghost ps = self.positions();
        let mut i: usize = 0;
        while i < self.file_header_positions.len()
            invariant
                i <= self.file_header_positions@.len(),
                ps == self.positions(),
                *self == *old(self),
                old(self).wf(),
                current == self.scroll as usize,
                first_after(ps, current as int, 0) == first_after(ps, current as int, i as int),
            decreases self.file_header_positions@.len() - i,
        {
            let p = self.file_header_positions[i];
            if p > current {
                let max = self.max_scroll();
                assert(ps[i as int] == p);
                self.scroll = if p <= max as usize {
                    p as u16
                } else {
                    max
                };
                return;
            }
            i = i + 1;
        }
    }

    /// Jump scroll to the previous file header before the current position.
    pub fn prev_file(&mut self)
        requires
            old(self).wf(),
        ensures
            final(self).wf(),
            final(self).unchanged_but_scroll(*old(self)),
            final(self).scroll == old(self).prev_file_scroll(),
    {
        let current = self.scroll as usize;
        let ghost ps = self.positions();
        let mut k: usize = self.file_header_positions.len();
        while k > 0
            invariant
                k <= self.file_header_positions@.len(),
                ps == self.positions(),
                ps.len() == self.file_header_positions@.len(),
                *self == *old(self),
                old(self).wf(),
                current == self.scroll as usize,
                last_before(ps, current as int, ps.len() as int) == last_before(
                    ps,
                    current as int,
                    k as int,
                ),
            decreases k,
        {
            let p = self.file_header_positions[k - 1];
            if p < current {
                self.scroll = p as u16;
                return;
            }
            k = k - 1;
        }
    }

    /// The file whose section holds the scroll position, as its name.
    pub open spec fn file_at_spec(&self) -> Option<Seq<char>> {
        let ps = self.positions();
        let h = last_at_or_before(ps, self.scroll as int, ps.len() as int);
        if h < 0 {
            None
        } else {
            match self.visible()[ps[h]] {
                DiffLineView::FileHeader { filename, .. } => Some(filename),
                _ => None,
            }
        }
    }

    /// Determine which file the current scroll position is inside of.
    fn file_at_scroll(&self) -> (r: Option<String>)
        requires
            self.wf(),
        ensures
            match r {
                Some(n) => self.file_at_spec() == Some(n@),
                None => self.file_at_spec() is None,
            },
    {
        let pos = self.scroll as usize;
        let ghost ps = self.positions();
        let mut k: usize = self.file_header_positions.len();
        while k > 0
            invariant
                self.wf(),
                pos == self.scroll as usize,
                k <= self.file_header_positions@.len(),
                ps == self.positions(),
                ps.len() == self.file_header_positions@.len(),
                last_at_or_before(ps, pos as int, ps.len() as int) == last_at_or_before(
                    ps,
                    pos as int,
                    k as int,
                ),
            decreases k,
        {
            let p = self.file_header_positions[k - 1];
            if p <= pos {
                assert(self.visible()[p as int] == self.visible_lines@[p as int]@);
                assert(ps[k - 1] == p);
                return match &self.visible_lines[p] {
                    DiffLine::FileHeader { filename, .. } => Some(filename.clone()),
                    _ => None,
                };
            }
            k = k - 1;
        }
        None
    }

    /// Toggle the collapsed state of the file under the current viewport position.
    pub fn toggle_file_fold(&mut self, files: &[FileDiff])
        requires
            old(self).wf(),
        ensures
            final(self).wf(),
            toggle_fold_post(*old(self), *final(self), files_view(files@)),
    {
        if let Some(name) = self.file_at_scroll() {
            if self.is_collapsed(&name) {
                self.uncollapse(&name);
            } else {
                self.collapse(name);
            }
            self.recompute_visible_lines(files);
        }
    }

    /// Remove `name` from the fold set.
    fn uncollapse(&mut self, name: &String)
        requires
            old(self).wf(),
        ensures
            final(self).wf(),
            final(self).collapsed_set() == old(self).collapsed_set().remove(name@),
            final(self).same_but_collapsed(*old(self)),
    {
        let ghost before = self.collapsed@;
        let mut i: usize = 0;
        while i < self.collapsed.len()
            invariant
                i <= self.collapsed@.len(),
                self.collapsed@ == before,
                *self == *old(self),
                old(self).wf(),
                forall|j: int| 0 <= j < i ==> before[j]@ != name@,
            decreases self.collapsed@.len() - i,
        {
            if self.collapsed[i] == *name {
                self.collapsed.remove(i);
                assert(names_unique(self.collapsed@)) by {
                    assert forall|a: int, b: int|
                        0 <= a < self.collapsed@.len() && 0 <= b < self.collapsed@.len() && a
                            != b implies self.collapsed@[a]@ != self.collapsed@[b]@ by {
                        let a0 = if a < i { a } else { a + 1 };
                        let b0 = if b < i { b } else { b + 1 };
                        assert(self.collapsed@[a] == before[a0]);
                        assert(self.collapsed@[b] == before[b0]);
                        assert(before[a0]@ != before[b0]@);
                    }
                }
                assert(name_set(self.collapsed@) =~= name_set(before).remove(name@)) by {
                    assert forall|n: Seq<char>|
                        name_set(before).remove(name@).contains(n) implies name_set(
                        self.collapsed@,
                    ).contains(n) by {
                        let j = choose|j: int| 0 <= j < before.len() && before[j]@ == n;
                        if j < i {
                            assert(self.collapsed@[j] == before[j]);
                        } else {
                            assert(j != i);
                            assert(self.collapsed@[j - 1] == before[j]);
                        }
                    }
                    assert forall|n: Seq<char>|
                        name_set(self.collapsed@).contains(n) implies name_set(before).remove(
                        name@,
                    ).contains(n) by {
                        let j = choose|j: int|
                            0 <= j < self.collapsed@.len() && self.collapsed@[j]@ == n;
                        if j < i {
                            assert(self.collapsed@[j] == before[j]);
                            assert(before[j]@ != before[i as int]@);
                        } else {
                            assert(self.collapsed@[j] == before[j + 1]);
                            assert(before[j + 1]@ != before[i as int]@);
                        }
                    }
                }
                return;
            }
            i = i + 1;
        }
        assert(name_set(self.collapsed@) =~= name_set(before).remove(name@));
    }

    /// Add `name` to the fold set, which does not hold it yet.
    fn collapse(&mut self, name: String)
        requires
            old(self).wf(),
            !old(self).collapsed_set().contains(name@),
        ensures
            final(self).wf(),
            final(self).collapsed_set() == old(self).collapsed_set().insert(name@),
            final(self).same_but_collapsed(*old(self)),
    {
        let ghost before = self.collapsed@;
        let ghost nv = name@;
        self.collapsed.push(name);
        assert(self.collapsed@ == before.push(self.collapsed@.last()));
        assert forall|j: int| 0 <= j < before.len() implies before[j]@ != nv by {
            if before[j]@ == nv {
                assert(name_set(before).contains(nv));
            }
        }
        assert(name_set(self.collapsed@) =~= name_set(before).insert(nv)) by {
            assert forall|n: Seq<char>| name_set(self.collapsed@).contains(n) implies name_set(
                before,
            ).insert(nv).contains(n) by {
                let j = choose|j: int|
                    0 <= j < self.collapsed@.len() && self.collapsed@[j]@ == n;
                if j < before.len() {
                    assert(self.collapsed@[j] == before[j]);
                }
            }
            assert forall|n: Seq<char>| name_set(before).insert(nv).contains(n) implies name_set(
                self.collapsed@,
            ).contains(n) by {
                if n == nv {
                    assert(self.collapsed@[before.len() as int]@ == nv);
                } else {
                    let j = choose|j: int| 0 <= j < before.len() && before[j]@ == n;
                    assert(self.collapsed@[j] == before[j]);
                }
            }
        }
    }

    /// Everything but the fold set is as in `prev`.
    pub open spec fn same_but_collapsed(&self, prev: App) -> bool {
        &&& self.should_quit == prev.should_quit
        &&& self.view == prev.view
        &&& self.scroll == prev.scroll
        &&& self.diff_line_count == prev.diff_line_count
        &&& self.viewport_height == prev.viewport_height
        &&& self.screen == prev.screen
        &&& self.input_mode == prev.input_mode
        &&& self.search == prev.search
        &&& self.commit_log == prev.commit_log
        &&& self.commit_log_selected == prev.commit_log_selected
        &&& self.pager_content == prev.pager_content
        &&& self.visible_lines == prev.visible_lines
        &&& self.file_header_positions == prev.file_header_positions
    }

    /// Collapse all file sections.
    pub fn fold_all(&mut self, files: &[FileDiff])
        requires
            old(self).wf(),
        ensures
            final(self).wf(),
            final(self).collapsed_set() == old(self).collapsed_set().union(
                named_files(files_view(files@)),
            ),
            final(self).shows(files_view(files@)),
            final(self).unchanged_outside_lines(*old(self)),
    {
        let ghost start = self.collapsed_set();
        let ghost fv = files_view(files@);
        let mut k: usize = 0;
        while k < files.len()
            invariant
                old(self).wf(),
                self.wf(),
                k <= files@.len(),
                fv == files_view(files@),
                self.collapsed_set() == start.union(named_files(fv.subrange(0, k as int))),
                self.unchanged_outside_lines(*old(self)),
            decreases files@.len() - k,
        {
            let fd = &files[k];
            assert(fv.subrange(0, k + 1) =~= fv.subrange(0, k as int).push(fd@));
            proof {
                lemma_named_files_push(fv.subrange(0, k as int), fd@);
            }
            if !fd.filename.as_str().is_empty() && !self.is_collapsed(&fd.filename) {
                self.collapse(fd.filename.clone());
            }
            k = k + 1;
        }
        assert(fv.subrange(0, files@.len() as int) =~= fv);
        self.recompute_visible_lines(files);
    }

    /// Expand all file sections.
    pub fn unfold_all(&mut self, files: &[FileDiff])
        requires
            old(self).wf(),
        ensures
            final(self).wf(),
            final(self).collapsed_set() == Set::<Seq<char>>::empty(),
            final(self).shows(files_view(files@)),
            final(self).unchanged_outside_lines(*old(self)),
    {
        self.collapsed.clear();
        assert(self.collapsed_set() =~= Set::<Seq<char>>::empty());
        self.recompute_visible_lines(files);
    }

    /// Everything but the fold set and the derived line state (visible lines, positions,
    /// count, scroll) is as in `prev`.
    pub open spec fn unchanged_outside_lines(&self, prev: App) -> bool {
        &&& self.should_quit == prev.should_quit
        &&& self.view == prev.view
        &&& self.viewport_height == prev.viewport_height
        &&& self.screen == prev.screen
        &&& self.input_mode == prev.input_mode
        &&& self.search == prev.search
        &&& self.commit_log == prev.commit_log
        &&& self.commit_log_selected == prev.commit_log_selected
        &&& self.pager_content == prev.pager_content
    }

    /// Everything but the derived line state (visible lines, positions, count, scroll) is as in `prev`.
    pub open spec fn same_but_lines(&self, prev: App) -> bool {
        &&& self.should_quit == prev.should_quit
        &&& self.view == prev.view
        &&& self.viewport_height == prev.viewport_height
        &&& self.screen == prev.screen
        &&& self.input_mode == prev.input_mode
        &&& self.search == prev.search
        &&& self.commit_log == prev.commit_log
        &&& self.commit_log_selected == prev.commit_log_selected
        &&& self.pager_content == prev.pager_content
        &&& self.collapsed == prev.collapsed
    }

    // ── Search ──────────────────────────────────────────────────

    /// Leave search mode and forget the query and its matches.
    pub fn clear_search(&mut self)
        requires
            old(self).wf(),
        ensures
            final(self).wf(),
            final(self).input_mode == InputMode::Normal,
            final(self).search.is_cleared(),
            final(self).scroll == old(self).scroll,
            final(self).view == old(self).view,
            final(self).screen == old(self).screen,
            final(self).should_quit == old(self).should_quit,
            final(self).diff_line_count == old(self).diff_line_count,
            final(self).viewport_height == old(self).viewport_height,
            final(self).commit_log == old(self).commit_log,
            final(self).commit_log_selected == old(self).commit_log_selected,
            final(self).pager_content == old(self).pager_content,
            final(self).collapsed == old(self).collapsed,
            final(self).visible_lines == old(self).visible_lines,
            final(self).file_header_positions == old(self).file_header_positions,
    {
        self.input_mode = InputMode::Normal;
        self.search = SearchState::default();
    }

    /// Start typing a query, forward for `/` and backward for `?`.
    pub fn enter_search(&mut self, forward: bool)
        requires
            old(self).wf(),
        ensures
            final(self).wf(),
            final(self).input_mode == InputMode::Search,
            final(self).search.query@.len() == 0,
            final(self).search.forward == forward,
            !final(self).search.active,
            final(self).search.matches@.len() == 0,
            final(self).search.current_match == 0,
            *final(self) == (App {
                input_mode: InputMode::Search,
                search: final(self).search,
                ..*old(self)
            }),
    {
        self.input_mode = InputMode::Search;
        self.search = SearchState {
            query: String::new(),
            forward,
            active: false,
            matches: Vec::new(),
            current_match: 0,
        };
    }

    /// Append a character to the query.
    pub fn search_push(&mut self, c: char)
        requires
            old(self).wf(),
        ensures
            final(self).wf(),
            final(self).unchanged_but_search(*old(self)),
            final(self).search.query@ == old(self).search.query@.push(c),
            final(self).search.matches == old(self).search.matches,
            final(self).search.active == old(self).search.active,
            final(self).search.current_match == old(self).search.current_match,
            final(self).search.forward == old(self).search.forward,
            final(self).scroll == old(self).scroll,
            final(self).input_mode == old(self).input_mode,
    {
        push_char(&mut self.search.query, c);
    }

    /// Remove the last character of the query, if any.
    pub fn search_pop(&mut self)
        requires
            old(self).wf(),
        ensures
            final(self).wf(),
            final(self).unchanged_but_search(*old(self)),
            final(self).search.query@ == if old(self).search.query@.len() == 0 {
                old(self).search.query@
            } else {
                old(self).search.query@.drop_last()
            },
            final(self).search.matches == old(self).search.matches,
            final(self).search.active == old(self).search.active,
            final(self).search.current_match == old(self).search.current_match,
            final(self).search.forward == old(self).search.forward,
            final(self).scroll == old(self).scroll,
            final(self).input_mode == old(self).input_mode,
    {
        pop_char(&mut self.search.query);
    }

    /// The matches as integer triples.
    pub open spec fn match_view(&self) -> Seq<(int, int, int)> {
        self.search.matches@.map_values(|m: (usize, usize, usize)| (m.0 as int, m.1 as int, m.2 as int))
    }

    /// Recompute all search matches for the given lines (case-insensitive).
    pub fn recompute_matches(&mut self, lines: &[DiffLine])
        requires
            old(self).wf(),
        ensures
            final(self).wf(),
            final(self).match_view() == query_hits(lines_view(lines@), old(self).search.query@),
            final(self).search.active == (final(self).search.matches@.len() > 0),
            final(self).search.query == old(self).search.query,
            final(self).search.forward == old(self).search.forward,
            final(self).search.current_match == old(self).search.current_match,
            final(self).unchanged_but_search(*old(self)),
    {
        self.search.matches.clear();
        if self.search.query.as_str().is_empty() {
            self.search.active = false;
            assert(self.match_view() =~= Seq::<(int, int, int)>::empty());
            return;
        }
        let ql = to_lower(self.search.query.as_str());
        let needle = ql.as_str().as_bytes();
        let ghost nd = needle_of(self.search.query@);
        assert(needle@ == nd);
        let ghost lv = lines_view(lines@);
        assert(self.match_view() =~= all_hits(lv.subrange(0, 0), nd));
        let mut k: usize = 0;
        while k < lines.len()
            invariant
                k <= lines@.len(),
                lv == lines_view(lines@),
                needle@ == nd,
                self.match_view() == all_hits(lv.subrange(0, k as int), nd),
                self.search.query == old(self).search.query,
                self.search.forward == old(self).search.forward,
                self.search.current_match == old(self).search.current_match,
                self.unchanged_but_search(*old(self)),
            decreases lines@.len() - k,
        {
            let lower = to_lower(lines[k].text());
            let hay = lower.as_str().as_bytes();
            let ghost key = line_key(lv[k as int]);
            assert(hay@ == key);
            let ghost base = self.match_view();
            let ghost mut done: Seq<(int, int)> = Seq::empty();
            let n = hay.len();
            let mut start: usize = 0;
            let mut more = needle.len() > 0;
            while more
                invariant
                    n == hay@.len(),
                    start <= n,
                    hay@ == key,
                    needle@ == nd,
                    !more ==> hits_from(key, nd, start as int) == Seq::<(int, int)>::empty(),
                    more ==> nd.len() > 0,
                    done + hits_from(key, nd, start as int) == hits_from(key, nd, 0),
                    self.match_view() == base + tag_hits(k as int, done),
                    self.search.query == old(self).search.query,
                    self.search.forward == old(self).search.forward,
                    self.search.current_match == old(self).search.current_match,
                    self.unchanged_but_search(*old(self)),
                decreases n + 1 - start + if more { 1int } else { 0int },
            {
                match find_bytes(hay, needle, start) {
                    Some(pos) => {
                        proof {
                            crate::text::lemma_first_occurrence(key, nd, start as int);
                        }
                        let end = pos + needle.len();
                        let ghost old_mv = self.match_view();
                        let ghost old_done = done;
                        self.search.matches.push((k, pos, end));
                        assert(self.match_view() =~= old_mv.push((k as int, pos as int, end as int)));
                        proof {
                            assert(hits_from(key, nd, start as int) == seq![(pos as int, end as int)]
                                + hits_from(key, nd, end as int));
                            done = done.push((pos as int, end as int));
                        }
                        assert(tag_hits(k as int, done) =~= tag_hits(k as int, old_done).push(
                            (k as int, pos as int, end as int),
                        ));
                        assert(self.match_view() =~= base + tag_hits(k as int, done));
                        start = end;
                    },
                    None => {
                        more = false;
                    },
                }
            }
            assert(done =~= hits_from(key, nd, 0));
            assert(lv.subrange(0, k + 1).drop_last() =~= lv.subrange(0, k as int));
            assert(self.match_view() == all_hits(lv.subrange(0, k + 1), nd));
            k = k + 1;
        }
        assert(lv.subrange(0, lines@.len() as int) =~= lv);
        self.search.active = self.search.matches.len() > 0;
    }

    /// Confirm the search query and switch back to normal mode.
    pub fn search_confirm(&mut self, lines: &[DiffLine])
        requires
            old(self).wf(),
        ensures
            final(self).wf(),
            confirm_post(*old(self), *final(self), lines_view(lines@)),
    {
        self.input_mode = InputMode::Normal;
        self.recompute_matches(lines);
        if self.search.matches.len() > 0 {
            self.search.active = true;
            self.search.current_match = if self.search.forward {
                self.first_match_from(self.scroll as usize)
            } else {
                self.last_match_before(self.scroll as usize + self.viewport_height as usize)
            };
            self.jump_to_current_match();
        }
    }

    /// Advance to the next match, wrapping after the last.
    pub fn search_next(&mut self)
        requires
            old(self).wf(),
        ensures
            final(self).wf(),
            next_match_post(*old(self), *final(self)),
    {
        if !self.search.active || self.search.matches.len() == 0 {
            return;
        }
        let len = self.search.matches.len();
        self.search.current_match = (self.search.current_match % len + 1) % len;
        proof {
            let c = old(self).search.current_match as int;
            let n = len as int;
            assert((c % n + 1) % n == (c + 1) % n) by {
                vstd::arithmetic::div_mod::lemma_add_mod_noop(c, 1, n);
                if n > 1 {
                    vstd::arithmetic::div_mod::lemma_small_mod(1nat, n as nat);
                }
            }
        }
        self.jump_to_current_match();
    }

    /// Step back to the previous match, wrapping before the first.
    pub fn search_prev(&mut self)
        requires
            old(self).wf(),
        ensures
            final(self).wf(),
            prev_match_post(*old(self), *final(self)),
    {
        if !self.search.active || self.search.matches.len() == 0 {
            return;
        }
        let len = self.search.matches.len();
        self.search.current_match = if self.search.current_match == 0 {
            len - 1
        } else {
            self.search.current_match - 1
        };
        self.jump_to_current_match();
    }

    /// Scroll so that the current match shows, five lines below the top.
    fn jump_to_current_match(&mut self)
        requires
            old(self).wf(),
        ensures
            final(self).wf(),
            final(self).search == old(self).search,
            final(self).unchanged_but_search_scroll(*old(self)),
            old(self).search.current_match < old(self).search.matches@.len() ==> final(self).scroll
                == jump_target(
                old(self).match_view()[old(self).search.current_match as int].0,
                old(self).max_scroll_spec(),
            ),
            old(self).search.current_match >= old(self).search.matches@.len() ==> final(self).scroll
                == old(self).scroll,
    {
        if self.search.current_match < self.search.matches.len() {
            let (line_idx, _, _) = self.search.matches[self.search.current_match];
            let target: usize = if line_idx >= 5 {
                line_idx - 5
            } else {
                0
            };
            let max = self.max_scroll();
            self.scroll = if target <= max as usize {
                target as u16
            } else {
                max
            };
        }
    }

    /// The first match whose line is at or after `line`, else 0.
    fn first_match_from(&self, line: usize) -> (r: usize)
        ensures
            r as int == first_match_spec(self.match_view(), line as int, 0),
            self.search.matches@.len() > 0 ==> r < self.search.matches@.len(),
    {
        let ghost ms = self.match_view();
        let mut i: usize = 0;
        while i < self.search.matches.len()
            invariant
                i <= self.search.matches@.len(),
                ms == self.match_view(),
                first_match_spec(ms, line as int, 0) == first_match_spec(ms, line as int, i as int),
            decreases self.search.matches@.len() - i,
        {
            let (li, _, _) = self.search.matches[i];
            if li >= line {
                return i;
            }
            i = i + 1;
        }
        0
    }

    /// The last match whose line is at or before `line`, else the last match.
    fn last_match_before(&self, line: usize) -> (r: usize)
        ensures
            r as int == last_match_spec(
                self.match_view(),
                line as int,
                self.search.matches@.len() as int,
            ),
            self.search.matches@.len() > 0 ==> r < self.search.matches@.len(),
    {
        let ghost ms = self.match_view();
        let mut k: usize = self.search.matches.len();
        while k > 0
            invariant
                k <= self.search.matches@.len(),
                ms == self.match_view(),
                last_match_spec(ms, line as int, ms.len() as int) == last_match_spec(
                    ms,
                    line as int,
                    k as int,
                ),
            decreases k,
        {
            let (li, _, _) = self.search.matches[k - 1];
            if li <= line {
                return k - 1;
            }
            k = k - 1;
        }
        self.search.matches.len().saturating_sub(1)
    }

    /// Everything but the search state and the scroll offset is as in `prev`.
    pub open spec fn unchanged_but_search_scroll(&self, prev: App) -> bool {
        &&& self.should_quit == prev.should_quit
        &&& self.view == prev.view
        &&& self.diff_line_count == prev.diff_line_count
        &&& self.viewport_height == prev.viewport_height
        &&& self.screen == prev.screen
        &&& self.input_mode == prev.input_mode
        &&& self.commit_log == prev.commit_log
        &&& self.commit_log_selected == prev.commit_log_selected
        &&& self.pager_content == prev.pager_content
        &&& self.collapsed == prev.collapsed
        &&& self.visible_lines == prev.visible_lines
        &&& self.file_header_positions == prev.file_header_positions
    }

    /// Everything but the search state is as in `prev`.
    pub open spec fn unchanged_but_search(&self, prev: App) -> bool {
        &&& self.should_quit == prev.should_quit
        &&& self.view == prev.view
        &&& self.scroll == prev.scroll
        &&& self.diff_line_count == prev.diff_line_count
        &&& self.viewport_height == prev.viewport_height
        &&& self.screen == prev.screen
        &&& self.input_mode == prev.input_mode
        &&& self.commit_log == prev.commit_log
        &&& self.commit_log_selected == prev.commit_log_selected
        &&& self.pager_content == prev.pager_content
        &&& self.collapsed == prev.collapsed
        &&& self.visible_lines == prev.visible_lines
        &&& self.file_header_positions == prev.file_header_positions
    }

    // ── Commit log navigation ───────────────────────────────────

    /// Move the commit cursor down one entry, stopping at the last.
    pub fn commit_log_down(&mut self)
        requires
            old(self).wf(),
        ensures
            final(self).wf(),
            final(self).commit_log_selected == if old(self).commit_log@.len() == 0 {
                old(self).commit_log_selected as int
            } else if old(self).commit_log_selected + 1 < old(self).commit_log@.len() {
                old(self).commit_log_selected + 1
            } else {
                old(self).commit_log@.len() - 1
            },
            *final(self) == (App {
                commit_log_selected: final(self).commit_log_selected,
                ..*old(self)
            }),
    {
        if self.commit_log.len() > 0 {
            let last = self.commit_log.len() - 1;
            self.commit_log_selected = if self.commit_log_selected < last {
                self.commit_log_selected + 1
            } else {
                last
            };
        }
    }

    /// Move the commit cursor up one entry, stopping at the first.
    pub fn commit_log_up(&mut self)
        requires
            old(self).wf(),
        ensures
            final(self).wf(),
            final(self).commit_log_selected == if old(self).commit_log_selected > 0 {
                old(self).commit_log_selected - 1
            } else {
                0
            },
            *final(self) == (App {
                commit_log_selected: final(self).commit_log_selected,
                ..*old(self)
            }),
    {
        self.commit_log_selected = self.commit_log_selected.saturating_sub(1);
    }
}


/// Folding a file and unfolding it again gives back the lines and header positions
/// that showed before the fold.
pub proof fn lemma_fold_then_unfold(
    files: Seq<FileDiffView>,
    collapsed: Set<Seq<char>>,
    name: Seq<char>,
)
    requires
        !collapsed.contains(name),
    ensures
        visible_spec(files, collapsed.insert(name).remove(name)) == visible_spec(files, collapsed),
        header_positions_spec(files, collapsed.insert(name).remove(name)) == header_positions_spec(
            files,
            collapsed,
        ),
{
    assert(collapsed.insert(name).remove(name) =~= collapsed);
}

/// Toggling the fold of the file under the cursor twice, where both toggles act on
/// that same file, leaves the visible lines and header positions as they were.
pub proof fn lemma_toggle_fold_twice(
    a0: App,
    a1: App,
    a2: App,
    files: Seq<FileDiffView>,
    name: Seq<char>,
)
    requires
        a0.shows(files),
        !a0.collapsed_set().contains(name),
        a0.file_at_spec() == Some(name),
        toggle_fold_post(a0, a1, files),
        a1.file_at_spec() == Some(name),
        toggle_fold_post(a1, a2, files),
    ensures
        a2.visible() == a0.visible(),
        a2.positions() == a0.positions(),
{
    assert(a1.collapsed_set().contains(name));
    assert(a2.collapsed_set() =~= a0.collapsed_set());
}

proof fn lemma_advance_mod(c: int, n: int, k: nat)
    requires
        0 <= c < n,
    ensures
        advance(c, n, k) == (c + k) % n,
    decreases k,
{
    if k > 0 {
        lemma_advance_mod(c, n, (k - 1) as nat);
        vstd::arithmetic::div_mod::lemma_add_mod_noop(c + k - 1, 1, n);
        if n > 1 {
            vstd::arithmetic::div_mod::lemma_small_mod(1nat, n as nat);
        }
        vstd::arithmetic::div_mod::lemma_mod_twice(c + k - 1, n);
    } else {
        vstd::arithmetic::div_mod::lemma_small_mod(c as nat, n as nat);
    }
}

/// In every state the operations keep, the scroll offset lies in
/// `[0, max(0, totalLines - viewportHeight)]`.
pub proof fn lemma_scroll_in_range(a: App)
    requires
        a.wf(),
    ensures
        0 <= a.scroll <= if a.diff_line_count > a.viewport_height {
            a.diff_line_count - a.viewport_height
        } else {
            0
        },
{
}

/// Pressing "next" as many times as there are matches comes back to the match
/// the cursor started on.
pub proof fn lemma_next_cycles(c: int, n: int)
    requires
        0 <= c < n,
    ensures
        advance(c, n, n as nat) == c,
{
    lemma_advance_mod(c, n, n as nat);
    vstd::arithmetic::div_mod::lemma_mod_add_multiples_vanish(c, n);
    vstd::arithmetic::div_mod::lemma_small_mod(c as nat, n as nat);
}

} // verus!
