//! The pager command line: making delta page its output itself.
use vstd::prelude::*;

use crate::text::{chars_of, has_prefix_at, is_ws, occurs_at, whitespace};

verus! {

/// `s[i..j]` is a whitespace-separated word of `s`.
pub open spec fn is_word(s: Seq<char>, i: int, j: int) -> bool {
    &&& 0 <= i < j <= s.len()
    &&& forall|k: int| i <= k < j ==> !is_ws(#[trigger] s[k])
    &&& i == 0 || is_ws(s[i - 1])
    &&& j == s.len() || is_ws(s[j])
}

/// A word that names the delta program, bare or by a path.
pub open spec fn names_delta(w: Seq<char>) -> bool {
    w == "delta"@ || (w.len() >= "/delta"@.len() && w.subrange(
        w.len() - "/delta"@.len(),
        w.len() as int,
    ) == "/delta"@)
}

/// Some word of the command names delta.
pub open spec fn invokes_delta(s: Seq<char>) -> bool {
    exists|i: int, j: int| is_word(s, i, j) && names_delta(s.subrange(i, j))
}

/// `pat` occurs somewhere in `s`.
pub open spec fn contains(s: Seq<char>, pat: Seq<char>) -> bool {
    exists|p: int| occurs_at(s, pat, p)
}

/// The pager command with `--paging=always` appended when it runs delta and
/// sets no paging mode of its own; otherwise the command unchanged.
pub open spec fn paging_always_spec(cmd: Seq<char>) -> Seq<char> {
    if invokes_delta(cmd) && !contains(cmd, "--paging"@) {
        cmd + " --paging=always"@
    } else {
        cmd
    }
}

/// Whether `pat` occurs anywhere in `v`.
fn contains_chars(v: &Vec<char>, pat: &Vec<char>) -> (r: bool)
    ensures
        r == contains(v@, pat@),
{
    let n = v.len();
    let mut p: usize = 0;
    while p <= n
        invariant
            n == v@.len(),
            p <= n + 1,
            forall|q: int| 0 <= q < p ==> !occurs_at(v@, pat@, q),
        decreases n + 1 - p,
    {
        if has_prefix_at(v, p, n, pat) {
            assert(occurs_at(v@, pat@, p as int));
            return true;
        }
        if p == n {
            assert forall|q: int| !occurs_at(v@, pat@, q) by {
                if 0 <= q <= n {
                    assert(q < p + 1);
                }
            }
            return false;
        }
        p = p + 1;
    }
    false
}

/// The first whitespace index at or after `i`, or the length.
fn word_end(v: &Vec<char>, i: usize) -> (j: usize)
    requires
        i <= v@.len(),
    ensures
        i <= j <= v@.len(),
        forall|k: int| i <= k < j ==> !is_ws(#[trigger] v@[k]),
        j == v@.len() || is_ws(v@[j as int]),
{
    let mut j: usize = i;
    while j < v.len() && !whitespace(v[j])
        invariant
            i <= j <= v@.len(),
            forall|k: int| i <= k < j ==> !is_ws(#[trigger] v@[k]),
        decreases v@.len() - j,
    {
        j = j + 1;
    }
    j
}

/// A word is determined by where it starts.
proof fn lemma_word_unique(s: Seq<char>, i: int, j: int, b: int)
    requires
        is_word(s, i, j),
        is_word(s, i, b),
    ensures
        j == b,
{
    if b < j {
        assert(!is_ws(s[b]));
    } else if j < b {
        assert(!is_ws(s[j]));
    }
}

/// Whether some word of `v` names delta.
fn any_word_names_delta(v: &Vec<char>, delta: &Vec<char>, slash_delta: &Vec<char>) -> (r: bool)
    requires
        delta@ == "delta"@,
        slash_delta@ == "/delta"@,
    ensures
        r == invokes_delta(v@),
{
    let n = v.len();
    let mut i: usize = 0;
    while i < n
        invariant
            n == v@.len(),
            i <= n,
            delta@ == "delta"@,
            slash_delta@ == "/delta"@,
            i == 0 || i == n || is_ws(v@[i - 1]),
            forall|a: int, b: int|
                #![trigger is_word(v@, a, b)]
                a < i && is_word(v@, a, b) ==> !names_delta(v@.subrange(a, b)),
        decreases n - i,
    {
        if whitespace(v[i]) {
            i = i + 1;
        } else {
            let j = word_end(v, i);
            let ghost w = v@.subrange(i as int, j as int);
            assert(is_word(v@, i as int, j as int));
            let is_bare = j - i == delta.len() && has_prefix_at(v, i, j, delta);
            let is_path = j - i >= slash_delta.len() && has_prefix_at(
                v,
                j - slash_delta.len(),
                j,
                slash_delta,
            );
            assert(is_bare == (w == delta@)) by {
                if j - i == delta@.len() {
                    assert(w.subrange(0, delta@.len() as int) =~= w);
                }
            }
            assert(is_path == (w.len() >= slash_delta@.len() && w.subrange(
                w.len() - slash_delta@.len(),
                w.len() as int,
            ) == slash_delta@)) by {
                if j - i >= slash_delta@.len() {
                    let st = j - slash_delta@.len();
                    assert(v@.subrange(st as int, j as int).subrange(0, slash_delta@.len() as int)
                        =~= w.subrange(w.len() - slash_delta@.len(), w.len() as int));
                }
            }
            if is_bare || is_path {
                return true;
            }
            assert forall|a: int, b: int|
                #![trigger is_word(v@, a, b)]
                a < (if j < n { j + 1 } else { j as int }) && is_word(v@, a, b) implies !names_delta(
                v@.subrange(a, b),
            ) by {
                if a == i {
                    lemma_word_unique(v@, i as int, j as int, b);
                } else if a > i {
                    assert(!is_ws(v@[a - 1]));
                }
            }
            i = if j < n {
                j + 1
            } else {
                j
            };
        }
    }
    assert forall|a: int, b: int| is_word(v@, a, b) implies !names_delta(v@.subrange(a, b)) by {
        assert(a < i);
    }
    false
}

/// If the pager command invokes delta without an explicit --paging flag,
/// append `--paging=always` so it always spawns its internal pager.
pub fn ensure_paging_always(pager_cmd: &str) -> (r: String)
    ensures
        r@ == paging_always_spec(pager_cmd@),
{
    let v = chars_of(pager_cmd);
    let has_delta = any_word_names_delta(&v, &chars_of("delta"), &chars_of("/delta"));
    if has_delta && !contains_chars(&v, &chars_of("--paging")) {
        let mut r = pager_cmd.to_owned();
        r.append(" --paging=always");
        r
    } else {
        pager_cmd.to_owned()
    }
}

} // verus!
