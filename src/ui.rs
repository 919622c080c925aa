//! Text shaping for the terminal view.
use vstd::prelude::*;

use crate::app::{App, InputMode, Screen, SearchState};
use crate::git::RepoState;
use crate::text::{chars_of, push_char, string_of};

verus! {

/// `s` cut to at most `max_len` characters, the last three replaced by `...` when
/// it was cut and there is room for them.
pub open spec fn truncate_spec(s: Seq<char>, max_len: nat) -> Seq<char> {
    if s.len() <= max_len {
        s
    } else if max_len <= 3 {
        s.subrange(0, max_len as int)
    } else {
        s.subrange(0, max_len - 3) + "..."@
    }
}

/// Truncate a string to `max_len` characters, appending "..." if truncated.
pub fn truncate_str(s: &str, max_len: usize) -> (r: String)
    ensures
        r@ == truncate_spec(s@, max_len as nat),
{
    let v = chars_of(s);
    if v.len() <= max_len {
        s.to_owned()
    } else if max_len <= 3 {
        string_of(&v, 0, max_len)
    } else {
        let mut r = string_of(&v, 0, max_len - 3);
        r.append("...");
        r
    }
}

/// The decimal digit for `d < 10`.
pub open spec fn digit_char(d: nat) -> char {
    if d == 0 {
        '0'
    } else if d == 1 {
        '1'
    } else if d == 2 {
        '2'
    } else if d == 3 {
        '3'
    } else if d == 4 {
        '4'
    } else if d == 5 {
        '5'
    } else if d == 6 {
        '6'
    } else if d == 7 {
        '7'
    } else if d == 8 {
        '8'
    } else {
        '9'
    }
}

/// `n` written in decimal, without leading zeros.
pub open spec fn decimal_spec(n: nat) -> Seq<char>
    decreases n,
{
    if n < 10 {
        seq![digit_char(n)]
    } else {
        decimal_spec(n / 10).push(digit_char(n % 10))
    }
}

/// The digit character for `d`.
fn digit(d: u128) -> (c: char)
    requires
        d < 10,
    ensures
        c == digit_char(d as nat),
{
    if d == 0 {
        '0'
    } else if d == 1 {
        '1'
    } else if d == 2 {
        '2'
    } else if d == 3 {
        '3'
    } else if d == 4 {
        '4'
    } else if d == 5 {
        '5'
    } else if d == 6 {
        '6'
    } else if d == 7 {
        '7'
    } else if d == 8 {
        '8'
    } else {
        '9'
    }
}

/// Write `n` in decimal.
pub fn decimal(n: u128) -> (r: String)
    ensures
        r@ == decimal_spec(n as nat),
    decreases n,
{
    if n < 10 {
        let mut r = String::new();
        push_char(&mut r, digit(n));
        r
    } else {
        let mut r = decimal(n / 10);
        push_char(&mut r, digit(n % 10));
        r
    }
}

/// How long ago the snapshot was taken, from the seconds elapsed.
pub open spec fn ago_spec(secs: nat) -> Seq<char> {
    if secs == 0 {
        "just now"@
    } else if secs < 60 {
        decimal_spec(secs) + "s ago"@
    } else {
        decimal_spec(secs / 60) + "m ago"@
    }
}

/// Label the age of the snapshot: `just now`, seconds under a minute, else whole minutes.
pub fn ago_label(elapsed_secs: u64) -> (r: String)
    ensures
        r@ == ago_spec(elapsed_secs as nat),
{
    if elapsed_secs == 0 {
        "just now".to_owned()
    } else if elapsed_secs < 60 {
        let mut r = decimal(elapsed_secs as u128);
        r.append("s ago");
        r
    } else {
        let mut r = decimal((elapsed_secs / 60) as u128);
        r.append("m ago");
        r
    }
}

/// The first seven characters of the last commit's hash, or dashes when there is none.
pub open spec fn short_sha_spec(h: Option<Seq<char>>) -> Seq<char> {
    match h {
        Some(h) => if h.len() >= 7 {
            h.subrange(0, 7)
        } else {
            "-------"@
        },
        None => "-------"@,
    }
}

/// The status bar: branch, short hash and subject, change counts and snapshot age.
pub open spec fn status_spec(state: RepoState, elapsed_secs: nat) -> Seq<char> {
    " "@ + state.branch@ + " | "@ + short_sha_spec(crate::git::opt_view(state.last_commit_hash))
        + " "@ + match state.last_commit_message {
        Some(m) => m@,
        None => "(no commits)"@,
    } + " | "@ + decimal_spec(state.staged_count as nat) + " staged, "@ + decimal_spec(
        state.unstaged_count as nat,
    ) + " unstaged  "@ + ago_spec(elapsed_secs)
}

/// Compose the status bar text for a snapshot taken `elapsed_secs` ago.
pub fn status_text(state: &RepoState, elapsed_secs: u64) -> (r: String)
    ensures
        r@ == status_spec(*state, elapsed_secs as nat),
{
    let mut r = " ".to_owned();
    r.append(state.branch.as_str());
    r.append(" | ");
    match &state.last_commit_hash {
        Some(h) => {
            let v = chars_of(h.as_str());
            if v.len() >= 7 {
                r.append(string_of(&v, 0, 7).as_str());
            } else {
                r.append("-------");
            }
        },
        None => r.append("-------"),
    }
    r.append(" ");
    match &state.last_commit_message {
        Some(m) => r.append(m.as_str()),
        None => r.append("(no commits)"),
    }
    r.append(" | ");
    r.append(decimal(state.staged_count as u128).as_str());
    r.append(" staged, ");
    r.append(decimal(state.unstaged_count as u128).as_str());
    r.append(" unstaged  ");
    r.append(ago_label(elapsed_secs).as_str());
    r
}

/// The help bar: the query being typed, the match counter of an active search, or
/// the key summary of the screen.
pub open spec fn help_spec(app: App) -> Seq<char> {
    match app.input_mode {
        InputMode::Search => (if app.search.forward {
            "/"@
        } else {
            "?"@
        }) + app.search.query@ + "\u{2588}"@,
        InputMode::Normal => if app.search.active && app.search.matches@.len() > 0 {
            " ["@ + decimal_spec((app.search.current_match + 1) as nat) + "/"@ + decimal_spec(
                app.search.matches@.len(),
            ) + "] \""@ + app.search.query@ + "\"  n/N: next/prev | Esc: clear"@
        } else {
            match app.screen {
                Screen::Diff => " q: quit | Tab: staged/unstaged | j/k: scroll | ]/[: file | Space: fold | C/E: all | /: search | d: pager | l: log "@,
                Screen::CommitLog => " q/Esc: back | j/k: navigate | Enter/d: view in pager | /: search "@,
            }
        },
    }
}

/// Compose the help bar text.
pub fn help_text(app: &App) -> (r: String)
    ensures
        r@ == help_spec(*app),
{
    match app.input_mode {
        InputMode::Search => {
            let mut r = if app.search.forward {
                "/".to_owned()
            } else {
                "?".to_owned()
            };
            r.append(app.search.query.as_str());
            r.append("\u{2588}");
            r
        },
        InputMode::Normal => {
            if app.search.active && app.search.matches.len() > 0 {
                let mut r = " [".to_owned();
                r.append(decimal(app.search.current_match as u128 + 1).as_str());
                r.append("/");
                r.append(decimal(app.search.matches.len() as u128).as_str());
                r.append("] \"");
                r.append(app.search.query.as_str());
                r.append("\"  n/N: next/prev | Esc: clear");
                r
            } else {
                match app.screen {
                    Screen::Diff => " q: quit | Tab: staged/unstaged | j/k: scroll | ]/[: file | Space: fold | C/E: all | /: search | d: pager | l: log ".to_owned(),
                    Screen::CommitLog => " q/Esc: back | j/k: navigate | Enter/d: view in pager | /: search ".to_owned(),
                }
            }
        },
    }
}

/// How a piece of a diff line is drawn.
#[derive(Debug, Clone, Copy, PartialEq, Eq, Structural)]
pub enum SegmentKind {
    Plain,
    /// A search match other than the current one.
    Match,
    /// The match the search cursor is on.
    Current,
}

/// The byte range `start..end` of a line's text, drawn as `kind`.
#[derive(Debug, Clone, Copy, PartialEq, Eq, Structural)]
pub struct Segment {
    pub start: usize,
    pub end: usize,
    pub kind: SegmentKind,
}

/// The smaller of two integers.
pub open spec fn min_int(a: int, b: int) -> int {
    if a < b {
        a
    } else {
        b
    }
}

/// After the first `k` matches: the segments so far and where the next plain part starts.
/// Each match on `line` (its span clamped to `len`) is preceded by the plain text
/// since the previous one.
pub open spec fn segment_state(
    ms: Seq<(int, int, int)>,
    cur: int,
    line: int,
    len: int,
    k: int,
) -> (Seq<(int, int, SegmentKind)>, int)
    decreases k,
{
    if k <= 0 {
        (Seq::empty(), 0)
    } else {
        let (segs, pos) = segment_state(ms, cur, line, len, k - 1);
        let m = ms[k - 1];
        if m.0 != line {
            (segs, pos)
        } else {
            let s = min_int(m.1, len);
            let e = min_int(m.2, len);
            let plain = if pos < s {
                seq![(pos, s, SegmentKind::Plain)]
            } else {
                Seq::empty()
            };
            let kind = if k - 1 == cur {
                SegmentKind::Current
            } else {
                SegmentKind::Match
            };
            (segs + plain + seq![(s, e, kind)], e)
        }
    }
}

/// The segments of line `line` whose text is `len` bytes long: the whole line plain
/// without an active search, else the matches on it with the plain text around them.
pub open spec fn segments_spec(search: SearchState, line: int, len: int) -> Seq<(int, int, SegmentKind)> {
    let ms = search.matches@.map_values(|m: (usize, usize, usize)| (m.0 as int, m.1 as int, m.2 as int));
    if !search.active || search.query@.len() == 0 {
        if len > 0 {
            seq![(0, len, SegmentKind::Plain)]
        } else {
            Seq::empty()
        }
    } else {
        let (segs, pos) = segment_state(ms, search.current_match as int, line, len, ms.len() as int);
        if pos < len {
            segs.push((pos, len, SegmentKind::Plain))
        } else {
            segs
        }
    }
}

/// The view of segments as integer triples.
pub open spec fn segments_view(v: Seq<Segment>) -> Seq<(int, int, SegmentKind)> {
    v.map_values(|g: Segment| (g.start as int, g.end as int, g.kind))
}

/// Split line `line_idx`, whose text is `len` bytes long, into plain and highlighted
/// pieces for drawing.
pub fn line_segments(search: &SearchState, line_idx: usize, len: usize) -> (r: Vec<Segment>)
    ensures
        segments_view(r@) == segments_spec(*search, line_idx as int, len as int),
{
    let mut r: Vec<Segment> = Vec::new();
    if !search.active || search.query.as_str().is_empty() {
        if len > 0 {
            r.push(Segment { start: 0, end: len, kind: SegmentKind::Plain });
        }
        assert(segments_view(r@) =~= segments_spec(*search, line_idx as int, len as int));
        return r;
    }
    let ghost ms = search.matches@.map_values(
        |m: (usize, usize, usize)| (m.0 as int, m.1 as int, m.2 as int),
    );
    let mut pos: usize = 0;
    let mut k: usize = 0;
    while k < search.matches.len()
        invariant
            k <= search.matches@.len(),
            ms == search.matches@.map_values(
                |m: (usize, usize, usize)| (m.0 as int, m.1 as int, m.2 as int),
            ),
            segment_state(ms, search.current_match as int, line_idx as int, len as int, k as int)
                == (segments_view(r@), pos as int),
            pos <= len,
        decreases search.matches@.len() - k,
    {
        let (li, ms_start, ms_end) = search.matches[k];
        if li == line_idx {
            let s = if ms_start < len {
                ms_start
            } else {
                len
            };
            let e = if ms_end < len {
                ms_end
            } else {
                len
            };
            let ghost before = segments_view(r@);
            if pos < s {
                r.push(Segment { start: pos, end: s, kind: SegmentKind::Plain });
            }
            let kind = if k == search.current_match {
                SegmentKind::Current
            } else {
                SegmentKind::Match
            };
            r.push(Segment { start: s, end: e, kind });
            proof {
                let plain = if pos < s {
                    seq![(pos as int, s as int, SegmentKind::Plain)]
                } else {
                    Seq::empty()
                };
                assert(segments_view(r@) =~= before + plain + seq![(s as int, e as int, kind)]);
            }
            pos = e;
        }
        k = k + 1;
    }
    assert(ms.len() == search.matches@.len());
    if pos < len {
        let ghost before = segments_view(r@);
        r.push(Segment { start: pos, end: len, kind: SegmentKind::Plain });
        assert(segments_view(r@) =~= before.push((pos as int, len as int, SegmentKind::Plain)));
    }
    r
}

} // verus!
