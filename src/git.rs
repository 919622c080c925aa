//! Repository snapshots and the parsing of version-control command output.
use std::time::Instant;

use vstd::prelude::*;

use crate::diff::{DiffLine, DiffLineView, FileDiff, FileDiffView, files_view, parse_files, parse_spec};
use crate::text::{chars_of, lines_of, split_lines, string_of, trim_spec, trimmed};

verus! {

/// The monotonic clock reading a snapshot carries, opaque to the proofs.
#[verifier::external_type_specification]
#[verifier::external_body]
pub struct ExInstant(Instant);

/// Relies on `Instant::now`: reads the monotonic clock; nothing is known of the value.
#[verifier::external_body]
fn now() -> Instant {
    Instant::now()
}

/// One entry from `git log`.
#[derive(Debug, Clone)]
pub struct CommitEntry {
    pub hash: String,
    pub message: String,
    pub author: String,
    pub date_relative: String,
}

impl View for CommitEntry {
    type V = (Seq<char>, Seq<char>, Seq<char>, Seq<char>);

    open spec fn view(&self) -> (Seq<char>, Seq<char>, Seq<char>, Seq<char>) {
        (self.hash@, self.message@, self.author@, self.date_relative@)
    }
}

/// Snapshot of everything we need from git to render one frame.
pub struct RepoState {
    pub branch: String,
    pub last_commit_hash: Option<String>,
    pub last_commit_message: Option<String>,
    pub staged_count: usize,
    pub unstaged_count: usize,
    pub unstaged_diff: Vec<FileDiff>,
    pub staged_diff: Vec<FileDiff>,
    pub refreshed_at: Instant,
}

/// The view of an optional string.
pub open spec fn opt_view(o: Option<String>) -> Option<Seq<char>> {
    match o {
        Some(s) => Some(s@),
        None => None,
    }
}

impl RepoState {
    /// Build a snapshot from what the version-control tool reported: the branch label,
    /// the last commit, the staged/unstaged counts and the two raw diffs.
    pub fn assemble(
        branch: String,
        last_commit: (Option<String>, Option<String>),
        counts: (usize, usize),
        unstaged_raw: &str,
        staged_raw: &str,
    ) -> (r: RepoState)
        ensures
            r.branch == branch,
            r.last_commit_hash == last_commit.0,
            r.last_commit_message == last_commit.1,
            r.staged_count == counts.0,
            r.unstaged_count == counts.1,
            files_view(r.unstaged_diff@) == parse_spec(unstaged_raw@),
            files_view(r.staged_diff@) == parse_spec(staged_raw@),
    {
        RepoState {
            branch,
            last_commit_hash: last_commit.0,
            last_commit_message: last_commit.1,
            staged_count: counts.0,
            unstaged_count: counts.1,
            unstaged_diff: parse_files(unstaged_raw),
            staged_diff: parse_files(staged_raw),
            refreshed_at: now(),
        }
    }

    /// Return a fallback state for when the repo has no commits yet.
    pub fn empty(reason: &str) -> (r: RepoState)
        ensures
            r.branch@ == "(unknown)"@,
            r.last_commit_hash is None,
            r.last_commit_message is None,
            r.staged_count == 0,
            r.unstaged_count == 0,
            files_view(r.unstaged_diff@) == seq![
                FileDiffView {
                    filename: Seq::empty(),
                    added: 0,
                    removed: 0,
                    lines: seq![DiffLineView::Context(reason@)],
                },
            ],
            r.staged_diff@.len() == 0,
    {
        let mut lines: Vec<DiffLine> = Vec::new();
        lines.push(DiffLine::Context(reason.to_owned()));
        let mut unstaged: Vec<FileDiff> = Vec::new();
        unstaged.push(FileDiff { filename: String::new(), added: 0, removed: 0, lines });
        proof {
            assert(crate::diff::lines_view(unstaged@[0].lines@) =~= seq![DiffLineView::Context(reason@)]);
        }
        let r = RepoState {
            branch: "(unknown)".to_owned(),
            last_commit_hash: None,
            last_commit_message: None,
            staged_count: 0,
            unstaged_count: 0,
            unstaged_diff: unstaged,
            staged_diff: Vec::new(),
            refreshed_at: now(),
        };
        assert(files_view(r.unstaged_diff@) =~= seq![
            FileDiffView {
                filename: Seq::empty(),
                added: 0,
                removed: 0,
                lines: seq![DiffLineView::Context(reason@)],
            },
        ]);
        r
    }
}

// ── Parsing of command output ───────────────────────────────────

/// The branch a `rev-parse --abbrev-ref HEAD` output names, or `None` for a detached head.
pub open spec fn branch_spec(out: Seq<char>) -> Option<Seq<char>> {
    if trim_spec(out) == "HEAD"@ {
        None
    } else {
        Some(trim_spec(out))
    }
}

/// Read the branch name from `rev-parse --abbrev-ref HEAD` output; `None` when
/// the head is detached and the short hash has to be asked for.
pub fn parse_branch(out: &str) -> (r: Option<String>)
    ensures
        opt_view(r) == branch_spec(out@),
{
    let v = chars_of(out);
    let t = trimmed(&v, 0, v.len());
    assert(v@.subrange(0, v@.len() as int) =~= v@);
    let head = "HEAD".to_owned();
    if t == head {
        None
    } else {
        Some(t)
    }
}

/// The branch label of a detached head: `detached:` and the short hash.
pub fn detached_label(sha_out: &str) -> (r: String)
    ensures
        r@ == "detached:"@ + trim_spec(sha_out@),
{
    let v = chars_of(sha_out);
    let t = trimmed(&v, 0, v.len());
    assert(v@.subrange(0, v@.len() as int) =~= v@);
    let mut r = "detached:".to_owned();
    r.append(t.as_str());
    r
}

/// Hash and subject from `log -1 --format=%H%n%s` output: nothing for an empty log.
pub open spec fn last_commit_spec(out: Seq<char>) -> (Option<Seq<char>>, Option<Seq<char>>) {
    let t = trim_spec(out);
    let ls = lines_of(t);
    if t.len() == 0 {
        (None, None)
    } else {
        (
            if ls.len() > 0 { Some(ls[0]) } else { None },
            if ls.len() > 1 { Some(ls[1]) } else { None },
        )
    }
}

/// Read the last commit's hash and subject.
pub fn parse_last_commit(out: &str) -> (r: (Option<String>, Option<String>))
    ensures
        (opt_view(r.0), opt_view(r.1)) == last_commit_spec(out@),
{
    let v = chars_of(out);
    let t = trimmed(&v, 0, v.len());
    assert(v@.subrange(0, v@.len() as int) =~= v@);
    if t.as_str().is_empty() {
        return (None, None);
    }
    let tv = chars_of(t.as_str());
    let ls = split_lines(&tv);
    let ghost lv = ls@.map_values(|l: Vec<char>| l@);
    let hash = if ls.len() > 0 {
        assert(lv[0] == ls@[0]@);
        Some(string_of(&ls[0], 0, ls[0].len()))
    } else {
        None
    };
    let msg = if ls.len() > 1 {
        assert(lv[1] == ls@[1]@);
        Some(string_of(&ls[1], 0, ls[1].len()))
    } else {
        None
    };
    proof {
        if ls@.len() > 0 {
            assert(ls@[0]@.subrange(0, ls@[0]@.len() as int) =~= ls@[0]@);
        }
        if ls@.len() > 1 {
            assert(ls@[1]@.subrange(0, ls@[1]@.len() as int) =~= ls@[1]@);
        }
    }
    (hash, msg)
}

/// A porcelain status line counts as staged when its index column shows a change.
pub open spec fn staged_line(l: Seq<char>) -> bool {
    l.len() >= 2 && l[0] != ' ' && l[0] != '?'
}

/// A porcelain status line counts as unstaged when its work-tree column shows a change.
pub open spec fn unstaged_line(l: Seq<char>) -> bool {
    l.len() >= 2 && l[1] != ' '
}

/// Number of lines of `ls` that count as staged.
pub open spec fn staged_total(ls: Seq<Seq<char>>) -> nat
    decreases ls.len(),
{
    if ls.len() == 0 {
        0
    } else {
        staged_total(ls.drop_last()) + if staged_line(ls.last()) {
            1nat
        } else {
            0nat
        }
    }
}

/// Number of lines of `ls` that count as unstaged.
pub open spec fn unstaged_total(ls: Seq<Seq<char>>) -> nat
    decreases ls.len(),
{
    if ls.len() == 0 {
        0
    } else {
        unstaged_total(ls.drop_last()) + if unstaged_line(ls.last()) {
            1nat
        } else {
            0nat
        }
    }
}

/// Count staged and unstaged entries in `status --porcelain` output. Lines shorter
/// than the two status columns are skipped.
pub fn parse_status_counts(out: &str) -> (r: (usize, usize))
    ensures
        r.0 == staged_total(lines_of(out@)),
        r.1 == unstaged_total(lines_of(out@)),
{
    let v = chars_of(out);
    let ls = split_lines(&v);
    let ghost lv = ls@.map_values(|l: Vec<char>| l@);
    let mut staged: usize = 0;
    let mut unstaged: usize = 0;
    let mut i: usize = 0;
    while i < ls.len()
        invariant
            i <= ls@.len(),
            lv == ls@.map_values(|l: Vec<char>| l@),
            staged == staged_total(lv.subrange(0, i as int)),
            unstaged == unstaged_total(lv.subrange(0, i as int)),
            staged <= i,
            unstaged <= i,
        decreases ls@.len() - i,
    {
        assert(lv.subrange(0, i + 1).drop_last() =~= lv.subrange(0, i as int));
        assert(lv.subrange(0, i + 1).last() == ls@[i as int]@);
        let line = &ls[i];
        if line.len() >= 2 {
            if line[0] != ' ' && line[0] != '?' {
                staged = staged + 1;
            }
            if line[1] != ' ' {
                unstaged = unstaged + 1;
            }
        }
        i = i + 1;
    }
    assert(lv.subrange(0, ls@.len() as int) =~= lv);
    (staged, unstaged)
}

/// The first index at or after `from` holding `c`, or -1.
pub open spec fn find_char(s: Seq<char>, c: char, from: int) -> int
    decreases s.len() - from,
{
    if from < 0 || from >= s.len() {
        -1
    } else if s[from] == c {
        from
    } else {
        find_char(s, c, from + 1)
    }
}

/// A found index lies at or after `from` and holds `c`.
pub proof fn lemma_find_char(s: Seq<char>, c: char, from: int)
    requires
        0 <= from,
    ensures
        find_char(s, c, from) == -1 || (from <= find_char(s, c, from) < s.len() && s[find_char(
            s,
            c,
            from,
        )] == c),
    decreases s.len() - from,
{
    if from < s.len() && s[from] != c {
        lemma_find_char(s, c, from + 1);
    }
}

/// The four NUL-separated fields of a log line (the last one taking the rest),
/// or `None` when the line has fewer than three NULs.
pub open spec fn log_entry_spec(l: Seq<char>) -> Option<(Seq<char>, Seq<char>, Seq<char>, Seq<char>)> {
    let a = find_char(l, '\0', 0);
    let b = find_char(l, '\0', a + 1);
    let c = find_char(l, '\0', b + 1);
    if a < 0 || b < 0 || c < 0 {
        None
    } else {
        Some((l.subrange(0, a), l.subrange(a + 1, b), l.subrange(b + 1, c), l.subrange(c + 1, l.len() as int)))
    }
}

/// The entries of the lines that have all four fields, in order.
pub open spec fn log_spec(ls: Seq<Seq<char>>) -> Seq<(Seq<char>, Seq<char>, Seq<char>, Seq<char>)>
    decreases ls.len(),
{
    if ls.len() == 0 {
        Seq::empty()
    } else {
        log_spec(ls.drop_last()) + match log_entry_spec(ls.last()) {
            Some(e) => seq![e],
            None => Seq::empty(),
        }
    }
}

/// The first index at or after `from` in `v` holding `c`.
fn find_char_at(v: &Vec<char>, c: char, from: usize) -> (r: Option<usize>)
    ensures
        match r {
            Some(p) => p as int == find_char(v@, c, from as int),
            None => find_char(v@, c, from as int) == -1,
        },
{
    let mut p: usize = from;
    while p < v.len()
        invariant
            from <= p,
            find_char(v@, c, from as int) == find_char(v@, c, p as int),
        decreases v@.len() - p,
    {
        if v[p] == c {
            return Some(p);
        }
        p = p + 1;
    }
    None
}

/// Split one `log --format=%h%x00%s%x00%an%x00%ar` line into an entry.
fn parse_log_line(l: &Vec<char>) -> (r: Option<CommitEntry>)
    ensures
        match r {
            Some(e) => log_entry_spec(l@) == Some(e@),
            None => log_entry_spec(l@) is None,
        },
{
    let n = l.len();
    proof {
        lemma_find_char(l@, '\0', 0);
    }
    let a = match find_char_at(l, '\0', 0) {
        Some(a) => a,
        None => return None,
    };
    proof {
        lemma_find_char(l@, '\0', a + 1);
    }
    let b = match find_char_at(l, '\0', a + 1) {
        Some(b) => b,
        None => return None,
    };
    proof {
        lemma_find_char(l@, '\0', b + 1);
    }
    let c = match find_char_at(l, '\0', b + 1) {
        Some(c) => c,
        None => return None,
    };
    Some(
        CommitEntry {
            hash: string_of(l, 0, a),
            message: string_of(l, a + 1, b),
            author: string_of(l, b + 1, c),
            date_relative: string_of(l, c + 1, n),
        },
    )
}

/// The commits listed in `log --format=%h%x00%s%x00%an%x00%ar` output; lines
/// without all four fields are skipped.
pub fn parse_log(out: &str) -> (r: Vec<CommitEntry>)
    ensures
        r@.map_values(|e: CommitEntry| e@) == log_spec(lines_of(out@)),
{
    let v = chars_of(out);
    let ls = split_lines(&v);
    let ghost lv = ls@.map_values(|l: Vec<char>| l@);
    let mut entries: Vec<CommitEntry> = Vec::new();
    let mut i: usize = 0;
    while i < ls.len()
        invariant
            i <= ls@.len(),
            lv == ls@.map_values(|l: Vec<char>| l@),
            entries@.map_values(|e: CommitEntry| e@) == log_spec(lv.subrange(0, i as int)),
        decreases ls@.len() - i,
    {
        assert(lv.subrange(0, i + 1).drop_last() =~= lv.subrange(0, i as int));
        assert(lv.subrange(0, i + 1).last() == ls@[i as int]@);
        let ghost before = entries@.map_values(|e: CommitEntry| e@);
        match parse_log_line(&ls[i]) {
            Some(e) => {
                entries.push(e);
                assert(entries@.map_values(|e: CommitEntry| e@) =~= before + seq![e@]);
            },
            None => {
                assert(before + Seq::<(Seq<char>, Seq<char>, Seq<char>, Seq<char>)>::empty() =~= before);
            },
        }
        i = i + 1;
    }
    assert(lv.subrange(0, ls@.len() as int) =~= lv);
    entries
}

} // verus!
