//! Unified-diff text split into per-file sections of classified lines.
use vstd::prelude::*;

use crate::text::{chars_of, has_prefix_at, lines_of, occurs_at, split_lines, starts_with, string_of};

verus! {

/// A single line from a unified diff, classified by type.
#[derive(Debug, Clone)]
pub enum DiffLine {
    /// Synthetic header for a per-file collapsible section.
    FileHeader { filename: String, added: usize, removed: usize },
    /// `diff --git …`, `index …`, `--- a/…`, `+++ b/…`
    Header(String),
    /// `@@ -n,m +n,m @@` hunk header
    Hunk(String),
    /// `+…` added line
    Added(String),
    /// `-…` removed line
    Removed(String),
    /// ` …` context (unchanged) line
    Context(String),
}

/// What a `DiffLine` holds, with its text as characters.
pub enum DiffLineView {
    FileHeader { filename: Seq<char>, added: nat, removed: nat },
    Header(Seq<char>),
    Hunk(Seq<char>),
    Added(Seq<char>),
    Removed(Seq<char>),
    Context(Seq<char>),
}

impl View for DiffLine {
    type V = DiffLineView;

    open spec fn view(&self) -> DiffLineView {
        match self {
            DiffLine::FileHeader { filename, added, removed } => DiffLineView::FileHeader {
                filename: filename@,
                added: *added as nat,
                removed: *removed as nat,
            },
            DiffLine::Header(s) => DiffLineView::Header(s@),
            DiffLine::Hunk(s) => DiffLineView::Hunk(s@),
            DiffLine::Added(s) => DiffLineView::Added(s@),
            DiffLine::Removed(s) => DiffLineView::Removed(s@),
            DiffLine::Context(s) => DiffLineView::Context(s@),
        }
    }
}

impl DiffLineView {
    /// The text a line shows: the filename for a synthetic header, else the raw line.
    pub open spec fn text(self) -> Seq<char> {
        match self {
            DiffLineView::FileHeader { filename, .. } => filename,
            DiffLineView::Header(s) => s,
            DiffLineView::Hunk(s) => s,
            DiffLineView::Added(s) => s,
            DiffLineView::Removed(s) => s,
            DiffLineView::Context(s) => s,
        }
    }
}

/// The views of a sequence of lines.
pub open spec fn lines_view(ls: Seq<DiffLine>) -> Seq<DiffLineView> {
    ls.map_values(|l: DiffLine| l@)
}

impl DiffLine {
    /// Return the inner text content regardless of variant.
    pub fn text(&self) -> (r: &str)
        ensures
            r@ == self@.text(),
    {
        match self {
            DiffLine::FileHeader { filename, .. } => filename.as_str(),
            DiffLine::Header(s) => s.as_str(),
            DiffLine::Hunk(s) => s.as_str(),
            DiffLine::Added(s) => s.as_str(),
            DiffLine::Removed(s) => s.as_str(),
            DiffLine::Context(s) => s.as_str(),
        }
    }

    /// A copy of this line with the same view.
    pub fn duplicate(&self) -> (r: DiffLine)
        ensures
            r@ == self@,
    {
        match self {
            DiffLine::FileHeader { filename, added, removed } => DiffLine::FileHeader {
                filename: filename.clone(),
                added: *added,
                removed: *removed,
            },
            DiffLine::Header(s) => DiffLine::Header(s.clone()),
            DiffLine::Hunk(s) => DiffLine::Hunk(s.clone()),
            DiffLine::Added(s) => DiffLine::Added(s.clone()),
            DiffLine::Removed(s) => DiffLine::Removed(s.clone()),
            DiffLine::Context(s) => DiffLine::Context(s.clone()),
        }
    }
}


/// All diff content for a single file.
#[derive(Debug, Clone)]
pub struct FileDiff {
    pub filename: String,
    pub added: usize,
    pub removed: usize,
    pub lines: Vec<DiffLine>,
}

/// What a `FileDiff` holds.
pub struct FileDiffView {
    pub filename: Seq<char>,
    pub added: nat,
    pub removed: nat,
    pub lines: Seq<DiffLineView>,
}

impl View for FileDiff {
    type V = FileDiffView;

    open spec fn view(&self) -> FileDiffView {
        FileDiffView {
            filename: self.filename@,
            added: self.added as nat,
            removed: self.removed as nat,
            lines: lines_view(self.lines@),
        }
    }
}

/// The views of a sequence of file sections.
pub open spec fn files_view(fs: Seq<FileDiff>) -> Seq<FileDiffView> {
    fs.map_values(|f: FileDiff| f@)
}

/// The character views of a sequence of character vectors.
pub open spec fn char_lines(ls: Seq<Vec<char>>) -> Seq<Seq<char>> {
    ls.map_values(|l: Vec<char>| l@)
}

// ── Classification ──────────────────────────────────────────────

/// How one raw line of a unified diff is classified.
pub open spec fn classify(l: Seq<char>) -> DiffLineView {
    if starts_with(l, "diff --git "@) || starts_with(l, "index "@) || starts_with(l, "--- "@)
        || starts_with(l, "+++ "@) || starts_with(l, "Binary files "@) {
        DiffLineView::Header(l)
    } else if starts_with(l, "@@"@) {
        DiffLineView::Hunk(l)
    } else if starts_with(l, "+"@) {
        DiffLineView::Added(l)
    } else if starts_with(l, "-"@) {
        DiffLineView::Removed(l)
    } else {
        DiffLineView::Context(l)
    }
}

/// Number of lines of `ls` classified as added.
pub open spec fn count_added(ls: Seq<Seq<char>>) -> nat
    decreases ls.len(),
{
    if ls.len() == 0 {
        0
    } else {
        count_added(ls.drop_last()) + if classify(ls.last()) is Added {
            1nat
        } else {
            0nat
        }
    }
}

/// Number of lines of `ls` classified as removed.
pub open spec fn count_removed(ls: Seq<Seq<char>>) -> nat
    decreases ls.len(),
{
    if ls.len() == 0 {
        0
    } else {
        count_removed(ls.drop_last()) + if classify(ls.last()) is Removed {
            1nat
        } else {
            0nat
        }
    }
}

/// The largest `p` with `lo <= p < k` at which `pat` occurs in `s`, or -1.
pub open spec fn last_occurrence(s: Seq<char>, pat: Seq<char>, lo: int, k: int) -> int
    decreases k - lo,
{
    if k <= lo {
        -1
    } else if occurs_at(s, pat, k - 1) {
        k - 1
    } else {
        last_occurrence(s, pat, lo, k - 1)
    }
}

/// The filename named by a `diff --git a/… b/…` line: what follows the last ` b/`
/// after the prefix; the whole line when there is no such marker.
pub open spec fn filename_of(h: Seq<char>) -> Seq<char> {
    let p = last_occurrence(h, " b/"@, "diff --git "@.len() as int, h.len() as int);
    if starts_with(h, "diff --git "@) && p >= 0 {
        h.subrange(p + " b/"@.len(), h.len() as int)
    } else {
        h
    }
}

/// The file section built from the raw lines `sec` of one file.
pub open spec fn file_of(sec: Seq<Seq<char>>) -> FileDiffView {
    FileDiffView {
        filename: filename_of(sec[0]),
        added: count_added(sec),
        removed: count_removed(sec),
        lines: sec.map_values(|l: Seq<char>| classify(l)),
    }
}

/// The literal prefixes that classify diff lines, as characters.
struct Markers {
    diff_git: Vec<char>,
    index: Vec<char>,
    old_file: Vec<char>,
    new_file: Vec<char>,
    binary: Vec<char>,
    hunk: Vec<char>,
    plus: Vec<char>,
    minus: Vec<char>,
    b_path: Vec<char>,
}

impl Markers {
    spec fn wf(&self) -> bool {
        &&& self.diff_git@ == "diff --git "@
        &&& self.index@ == "index "@
        &&& self.old_file@ == "--- "@
        &&& self.new_file@ == "+++ "@
        &&& self.binary@ == "Binary files "@
        &&& self.hunk@ == "@@"@
        &&& self.plus@ == "+"@
        &&& self.minus@ == "-"@
        &&& self.b_path@ == " b/"@
    }

    /// The prefixes, taken from their literals.
    fn new() -> (r: Markers)
        ensures
            r.wf(),
    {
        Markers {
            diff_git: chars_of("diff --git "),
            index: chars_of("index "),
            old_file: chars_of("--- "),
            new_file: chars_of("+++ "),
            binary: chars_of("Binary files "),
            hunk: chars_of("@@"),
            plus: chars_of("+"),
            minus: chars_of("-"),
            b_path: chars_of(" b/"),
        }
    }
}

/// Whether all of `l` begins with `p`.
fn line_starts_with(l: &Vec<char>, p: &Vec<char>) -> (r: bool)
    ensures
        r == starts_with(l@, p@),
{
    assert(l@.subrange(0, l@.len() as int) =~= l@);
    has_prefix_at(l, 0, l.len(), p)
}

/// Classify one raw diff line.
fn classify_line(l: &Vec<char>, m: &Markers) -> (r: DiffLine)
    requires
        m.wf(),
    ensures
        r@ == classify(l@),
{
    let s = string_of(l, 0, l.len());
    assert(l@.subrange(0, l@.len() as int) =~= l@);
    if line_starts_with(l, &m.diff_git) || line_starts_with(l, &m.index) || line_starts_with(
        l,
        &m.old_file,
    ) || line_starts_with(l, &m.new_file) || line_starts_with(l, &m.binary) {
        DiffLine::Header(s)
    } else if line_starts_with(l, &m.hunk) {
        DiffLine::Hunk(s)
    } else if line_starts_with(l, &m.plus) {
        DiffLine::Added(s)
    } else if line_starts_with(l, &m.minus) {
        DiffLine::Removed(s)
    } else {
        DiffLine::Context(s)
    }
}

/// The last start `p >= lo` of `pat` in `v`.
fn rfind_from(v: &Vec<char>, lo: usize, pat: &Vec<char>) -> (r: Option<usize>)
    ensures
        match r {
            Some(p) => p as int == last_occurrence(v@, pat@, lo as int, v@.len() as int),
            None => last_occurrence(v@, pat@, lo as int, v@.len() as int) == -1,
        },
{
    let mut k: usize = v.len();
    while k > lo
        invariant
            k <= v@.len(),
            last_occurrence(v@, pat@, lo as int, v@.len() as int) == last_occurrence(
                v@,
                pat@,
                lo as int,
                k as int,
            ),
        decreases k,
    {
        if has_prefix_at(v, k - 1, v.len(), pat) {
            return Some(k - 1);
        }
        k = k - 1;
    }
    None
}

/// Extract the filename from a `diff --git a/... b/...` line.
/// Falls back to the raw line if parsing fails.
fn extract_filename(h: &Vec<char>, m: &Markers) -> (r: String)
    requires
        m.wf(),
    ensures
        r@ == filename_of(h@),
{
    assert(h@.subrange(0, h@.len() as int) =~= h@);
    if line_starts_with(h, &m.diff_git) {
        match rfind_from(h, m.diff_git.len(), &m.b_path) {
            Some(p) => {
                proof {
                    lemma_last_occurrence(h@, m.b_path@, m.diff_git@.len() as int, h@.len() as int);
                }
                assert(m.b_path@.len() <= h@.subrange(p as int, h@.len() as int).len());
                let end = h.len();
                return string_of(h, p + m.b_path.len(), end);
            },
            None => {},
        }
    }
    string_of(h, 0, h.len())
}

/// A found occurrence is an occurrence, below the bound.
pub proof fn lemma_last_occurrence(s: Seq<char>, pat: Seq<char>, lo: int, k: int)
    ensures
        last_occurrence(s, pat, lo, k) >= 0 ==> {
            &&& occurs_at(s, pat, last_occurrence(s, pat, lo, k))
            &&& lo <= last_occurrence(s, pat, lo, k) < k
        },
    decreases k - lo,
{
    if k > lo && !occurs_at(s, pat, k - 1) {
        lemma_last_occurrence(s, pat, lo, k - 1);
    }
}


/// Build a `FileDiff` from the raw lines `ls[from..to]` belonging to one file.
fn build_file_diff(ls: &Vec<Vec<char>>, from: usize, to: usize, m: &Markers) -> (r: FileDiff)
    requires
        m.wf(),
        from < to <= ls@.len(),
    ensures
        r@ == file_of(char_lines(ls@).subrange(from as int, to as int)),
{
    let ghost sec = char_lines(ls@).subrange(from as int, to as int);
    let filename = extract_filename(&ls[from], m);
    let mut added: usize = 0;
    let mut removed: usize = 0;
    let mut lines: Vec<DiffLine> = Vec::new();
    let mut i: usize = from;
    while i < to
        invariant
            m.wf(),
            from <= i <= to <= ls@.len(),
            sec == char_lines(ls@).subrange(from as int, to as int),
            added == count_added(sec.subrange(0, i - from)),
            removed == count_removed(sec.subrange(0, i - from)),
            added + removed <= i - from,
            lines_view(lines@) == sec.subrange(0, i - from).map_values(|l: Seq<char>| classify(l)),
        decreases to - i,
    {
        let ghost prev = sec.subrange(0, i - from);
        let ghost next = sec.subrange(0, i + 1 - from);
        assert(next.drop_last() =~= prev);
        assert(next.last() == ls@[i as int]@);
        let dl = classify_line(&ls[i], m);
        match &dl {
            DiffLine::Added(_) => {
                added = added + 1;
            },
            DiffLine::Removed(_) => {
                removed = removed + 1;
            },
            _ => {},
        }
        let ghost old_lines = lines@;
        lines.push(dl);
        assert(lines_view(lines@) =~= lines_view(old_lines).push(dl@));
        assert(next.map_values(|l: Seq<char>| classify(l)) =~= prev.map_values(
            |l: Seq<char>| classify(l),
        ).push(classify(next.last())));
        i = i + 1;
    }
    assert(sec.subrange(0, to - from) =~= sec);
    FileDiff { filename, added, removed, lines }
}

// ── Sections ────────────────────────────────────────────────────

/// A line that opens a new file section.
pub open spec fn is_file_start(l: Seq<char>) -> bool {
    starts_with(l, "diff --git "@)
}

/// After the first `n` lines: the sections closed so far and the open one.
pub open spec fn split_state(ls: Seq<Seq<char>>, n: int) -> (Seq<Seq<Seq<char>>>, Seq<Seq<char>>)
    decreases n,
{
    if n <= 0 {
        (Seq::empty(), Seq::empty())
    } else {
        let (done, cur) = split_state(ls, n - 1);
        let l = ls[n - 1];
        if is_file_start(l) && cur.len() > 0 {
            (done.push(cur), seq![l])
        } else {
            (done, cur.push(l))
        }
    }
}

/// The lines split into file sections: a section starts at each `diff --git ` line,
/// and lines before the first such line form a section of their own.
pub open spec fn sections(ls: Seq<Seq<char>>) -> Seq<Seq<Seq<char>>> {
    let (done, cur) = split_state(ls, ls.len() as int);
    if cur.len() > 0 {
        done.push(cur)
    } else {
        done
    }
}

/// The file sections of raw diff text `raw`.
pub open spec fn parse_spec(raw: Seq<char>) -> Seq<FileDiffView> {
    sections(lines_of(raw)).map_values(|sec: Seq<Seq<char>>| file_of(sec))
}

/// Parse raw `git diff` output into per-file sections.
///
/// Splits on `diff --git` boundaries, extracts the filename from the `b/` path,
/// counts added/removed lines, and collects per-file diff lines.
pub fn parse_files(raw: &str) -> (r: Vec<FileDiff>)
    ensures
        files_view(r@) == parse_spec(raw@),
{
    let m = Markers::new();
    let chars = chars_of(raw);
    let ls = split_lines(&chars);
    let ghost lv = char_lines(ls@);
    assert(lv == lines_of(raw@));
    let mut files: Vec<FileDiff> = Vec::new();
    let mut cur: usize = 0;
    let mut i: usize = 0;
    while i < ls.len()
        invariant
            m.wf(),
            lv == char_lines(ls@),
            cur <= i <= ls@.len(),
            split_state(lv, i as int).1 == lv.subrange(cur as int, i as int),
            files_view(files@) == split_state(lv, i as int).0.map_values(
                |sec: Seq<Seq<char>>| file_of(sec),
            ),
        decreases ls@.len() - i,
    {
        assert(lv[i as int] == ls@[i as int]@);
        if line_starts_with(&ls[i], &m.diff_git) && cur < i {
            let fd = build_file_diff(&ls, cur, i, &m);
            let ghost old_files = files@;
            files.push(fd);
            assert(files_view(files@) =~= files_view(old_files).push(fd@));
            assert(split_state(lv, i + 1).0.map_values(|sec: Seq<Seq<char>>| file_of(sec))
                =~= split_state(lv, i as int).0.map_values(|sec: Seq<Seq<char>>| file_of(sec)).push(
                file_of(lv.subrange(cur as int, i as int))));
            cur = i;
            assert(split_state(lv, i + 1).1 =~= lv.subrange(cur as int, i + 1));
        } else {
            assert(split_state(lv, i + 1).1 =~= lv.subrange(cur as int, i + 1));
        }
        i = i + 1;
    }
    if cur < ls.len() {
        let fd = build_file_diff(&ls, cur, ls.len(), &m);
        let ghost old_files = files@;
        files.push(fd);
        assert(files_view(files@) =~= files_view(old_files).push(fd@));
    }
    assert(files_view(files@) =~= parse_spec(raw@));
    files
}

/// A copy of `v` line by line.
pub fn copy_lines(v: &Vec<DiffLine>) -> (r: Vec<DiffLine>)
    ensures
        lines_view(r@) == lines_view(v@),
{
    let mut r: Vec<DiffLine> = Vec::new();
    let mut i: usize = 0;
    while i < v.len()
        invariant
            i <= v@.len(),
            lines_view(r@) == lines_view(v@).subrange(0, i as int),
        decreases v@.len() - i,
    {
        let ghost before = lines_view(r@);
        r.push(v[i].duplicate());
        assert(lines_view(r@) =~= before.push(v@[i as int]@));
        assert(lines_view(v@).subrange(0, i + 1) =~= lines_view(v@).subrange(0, i as int).push(v@[i as int]@));
        i = i + 1;
    }
    assert(lines_view(v@).subrange(0, v@.len() as int) =~= lines_view(v@));
    r
}

} // verus!
