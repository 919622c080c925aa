//! Character-level text helpers shared by the parsers and the view state.
use vstd::prelude::*;

verus! {

/// `p` is a prefix of `s`.
pub open spec fn starts_with(s: Seq<char>, p: Seq<char>) -> bool {
    p.len() <= s.len() && s.subrange(0, p.len() as int) == p
}

/// `pat` occurs in `s` starting at index `p`.
pub open spec fn occurs_at(s: Seq<char>, pat: Seq<char>, p: int) -> bool {
    0 <= p <= s.len() && starts_with(s.subrange(p, s.len() as int), pat)
}

/// The characters that `char::is_whitespace` accepts: those with the Unicode
/// `White_Space` property.
pub open spec fn is_ws(c: char) -> bool {
    ('\t' <= c && c <= '\r') || c == ' ' || c == '\u{85}' || c == '\u{a0}' || c == '\u{1680}'
        || ('\u{2000}' <= c && c <= '\u{200a}') || c == '\u{2028}' || c == '\u{2029}' || c
        == '\u{202f}' || c == '\u{205f}' || c == '\u{3000}'
}

/// Relies on `char::is_whitespace`: true exactly for the `White_Space` characters.
#[verifier::external_body]
pub(crate) fn whitespace(c: char) -> (r: bool)
    ensures
        r == is_ws(c),
{
    c.is_whitespace()
}

/// Relies on `String::push`: the character is appended at the end.
#[verifier::external_body]
pub(crate) fn push_char(s: &mut String, c: char)
    ensures
        final(s)@ == old(s)@.push(c),
{
    s.push(c);
}

/// The characters of `s`, in order.
pub fn chars_of(s: &str) -> (r: Vec<char>)
    ensures
        r@ == s@,
{
    let mut r: Vec<char> = Vec::new();
    for c in it: s.chars()
        invariant
            r@ == it.seq().subrange(0, it.index() as int),
    {
        r.push(c);
    }
    r
}

/// A `String` holding exactly the characters `v[from..to]`.
pub fn string_of(v: &Vec<char>, from: usize, to: usize) -> (r: String)
    requires
        from <= to <= v@.len(),
    ensures
        r@ == v@.subrange(from as int, to as int),
{
    let mut r = String::new();
    let mut i: usize = from;
    while i < to
        invariant
            from <= i <= to <= v@.len(),
            r@ == v@.subrange(from as int, i as int),
        decreases to - i,
    {
        push_char(&mut r, v[i]);
        assert(v@.subrange(from as int, i + 1) == v@.subrange(from as int, i as int).push(v@[i as int]));
        i = i + 1;
    }
    r
}

/// Whether `v[from..to]` begins with the characters of `p`.
pub fn has_prefix_at(v: &Vec<char>, from: usize, to: usize, p: &Vec<char>) -> (r: bool)
    requires
        from <= to <= v@.len(),
    ensures
        r == starts_with(v@.subrange(from as int, to as int), p@),
{
    if p.len() > to - from {
        return false;
    }
    let mut i: usize = 0;
    while i < p.len()
        invariant
            from <= to <= v@.len(),
            p@.len() <= to - from,
            i <= p@.len(),
            forall|k: int| 0 <= k < i ==> v@[from + k] == p@[k],
        decreases p@.len() - i,
    {
        if v[from + i] != p[i] {
            assert(v@.subrange(from as int, to as int).subrange(0, p@.len() as int)[i as int] != p@[i as int]);
            return false;
        }
        i = i + 1;
    }
    assert(v@.subrange(from as int, to as int).subrange(0, p@.len() as int) =~= p@);
    true
}

/// Relies on `String::pop`: removes and returns the last character, if any.
#[verifier::external_body]
pub(crate) fn pop_char(s: &mut String) -> (r: Option<char>)
    ensures
        old(s)@.len() == 0 ==> r is None && final(s)@ == old(s)@,
        old(s)@.len() > 0 ==> r == Some(old(s)@.last()) && final(s)@ == old(s)@.drop_last(),
{
    s.pop()
}

/// What `str::to_lowercase` makes of a string.
pub uninterp spec fn lower_of(s: Seq<char>) -> Seq<char>;

/// Relies on `str::to_lowercase`: the lowercase form depends on the characters alone.
#[verifier::external_body]
pub(crate) fn to_lower(s: &str) -> (r: String)
    ensures
        r@ == lower_of(s@),
{
    s.to_lowercase()
}

/// `needle` occurs in `hay` at byte index `p`.
pub open spec fn bytes_occur_at(hay: Seq<u8>, needle: Seq<u8>, p: int) -> bool {
    0 <= p && p + needle.len() <= hay.len() && hay.subrange(p, p + needle.len()) == needle
}

/// The first index `p >= from` at which `needle` occurs in `hay`, or -1.
pub open spec fn first_occurrence(hay: Seq<u8>, needle: Seq<u8>, from: int) -> int
    decreases hay.len() + 1 - from,
{
    if from < 0 || from > hay.len() {
        -1
    } else if bytes_occur_at(hay, needle, from) {
        from
    } else {
        first_occurrence(hay, needle, from + 1)
    }
}

/// A found index lies at or after `from` and is an occurrence.
pub proof fn lemma_first_occurrence(hay: Seq<u8>, needle: Seq<u8>, from: int)
    ensures
        first_occurrence(hay, needle, from) == -1 || (from <= first_occurrence(hay, needle, from)
            && bytes_occur_at(hay, needle, first_occurrence(hay, needle, from))),
    decreases hay.len() + 1 - from,
{
    if 0 <= from <= hay.len() && !bytes_occur_at(hay, needle, from) {
        lemma_first_occurrence(hay, needle, from + 1);
    }
}

/// The non-overlapping occurrences of `needle` in `hay` from `from` on, leftmost first,
/// as (start, end) byte spans; none for an empty needle.
pub open spec fn hits_from(hay: Seq<u8>, needle: Seq<u8>, from: int) -> Seq<(int, int)>
    decreases hay.len() + 1 - from,
{
    if needle.len() == 0 || from < 0 || from > hay.len() {
        Seq::empty()
    } else {
        let p = first_occurrence(hay, needle, from);
        if p < 0 {
            Seq::empty()
        } else {
            proof {
                lemma_first_occurrence(hay, needle, from);
            }
            seq![(p, p + needle.len())] + hits_from(hay, needle, p + needle.len())
        }
    }
}

/// Whether `needle` occurs in `hay` at `p`.
fn bytes_at(hay: &[u8], p: usize, needle: &[u8]) -> (r: bool)
    requires
        p <= hay@.len(),
    ensures
        r == bytes_occur_at(hay@, needle@, p as int),
{
    if needle.len() > hay.len() - p {
        return false;
    }
    let n = hay.len();
    let mut i: usize = 0;
    while i < needle.len()
        invariant
            n == hay@.len(),
            p <= hay@.len(),
            needle@.len() <= hay@.len() - p,
            i <= needle@.len(),
            forall|k: int| 0 <= k < i ==> hay@[p + k] == needle@[k],
        decreases needle@.len() - i,
    {
        if hay[p + i] != needle[i] {
            assert(hay@.subrange(p as int, p + needle@.len())[i as int] != needle@[i as int]);
            return false;
        }
        i = i + 1;
    }
    assert(hay@.subrange(p as int, p + needle@.len()) =~= needle@);
    true
}

/// The first occurrence of `needle` in `hay` at or after `from`.
pub fn find_bytes(hay: &[u8], needle: &[u8], from: usize) -> (r: Option<usize>)
    requires
        from <= hay@.len(),
    ensures
        match r {
            Some(p) => p as int == first_occurrence(hay@, needle@, from as int),
            None => first_occurrence(hay@, needle@, from as int) == -1,
        },
{
    let n = hay.len();
    let mut p: usize = from;
    while p < n
        invariant
            n == hay@.len(),
            from <= p <= n,
            first_occurrence(hay@, needle@, from as int) == first_occurrence(
                hay@,
                needle@,
                p as int,
            ),
        decreases hay@.len() + 1 - p,
    {
        if bytes_at(hay, p, needle) {
            return Some(p);
        }
        p = p + 1;
    }
    if bytes_at(hay, n, needle) {
        Some(n)
    } else {
        assert(first_occurrence(hay@, needle@, n + 1) == -1);
        None
    }
}

/// `s` without its leading and trailing whitespace.
pub open spec fn trim_spec(s: Seq<char>) -> Seq<char> {
    if trim_start(s, 0) < trim_end(s, s.len() as int) {
        s.subrange(trim_start(s, 0), trim_end(s, s.len() as int))
    } else {
        Seq::empty()
    }
}

/// The first index at or after `i` that is not whitespace, or the length.
pub open spec fn trim_start(s: Seq<char>, i: int) -> int
    decreases s.len() - i,
{
    if i >= s.len() || i < 0 {
        s.len() as int
    } else if is_ws(s[i]) {
        trim_start(s, i + 1)
    } else {
        i
    }
}

/// One past the last index below `k` that is not whitespace, or 0.
pub open spec fn trim_end(s: Seq<char>, k: int) -> int
    decreases k,
{
    if k <= 0 {
        0
    } else if is_ws(s[k - 1]) {
        trim_end(s, k - 1)
    } else {
        k
    }
}

/// Trimming stays in bounds and stops at non-whitespace characters.
pub proof fn lemma_trim_bounds(s: Seq<char>, i: int, k: int)
    requires
        0 <= i <= s.len(),
        0 <= k <= s.len(),
    ensures
        i <= trim_start(s, i) <= s.len(),
        0 <= trim_end(s, k) <= k,
        trim_start(s, i) < s.len() ==> !is_ws(s[trim_start(s, i)]),
        trim_end(s, k) > 0 ==> !is_ws(s[trim_end(s, k) - 1]),
    decreases s.len() - i + k,
{
    if i < s.len() && is_ws(s[i]) {
        lemma_trim_bounds(s, i + 1, k);
    }
    if k > 0 && is_ws(s[k - 1]) {
        lemma_trim_bounds(s, i, k - 1);
    }
}

/// When nothing but whitespace lies before `i`, trimming from 0 stops where trimming from `i` does.
proof fn lemma_trim_start_skip(s: Seq<char>, i: int)
    requires
        0 <= i <= s.len(),
        forall|k: int| 0 <= k < i ==> is_ws(#[trigger] s[k]),
    ensures
        trim_start(s, 0) == trim_start(s, i),
    decreases i,
{
    if i > 0 {
        lemma_trim_start_skip(s, i - 1);
    }
}

/// When nothing but whitespace lies from `k` on, trimming from the end stops where trimming below `k` does.
proof fn lemma_trim_end_skip(s: Seq<char>, k: int)
    requires
        0 <= k <= s.len(),
        forall|j: int| k <= j < s.len() ==> is_ws(#[trigger] s[j]),
    ensures
        trim_end(s, s.len() as int) == trim_end(s, k),
    decreases s.len() - k,
{
    if k < s.len() {
        lemma_trim_end_skip(s, k + 1);
    }
}

/// The characters of `v[from..to]` without leading and trailing whitespace, as a `String`.
pub fn trimmed(v: &Vec<char>, from: usize, to: usize) -> (r: String)
    requires
        from <= to <= v@.len(),
    ensures
        r@ == trim_spec(v@.subrange(from as int, to as int)),
{
    let ghost s = v@.subrange(from as int, to as int);
    let mut a: usize = from;
    while a < to && whitespace(v[a])
        invariant
            from <= a <= to <= v@.len(),
            s == v@.subrange(from as int, to as int),
            forall|k: int| 0 <= k < a - from ==> is_ws(#[trigger] s[k]),
        decreases to - a,
    {
        a = a + 1;
    }
    let mut b: usize = to;
    while b > a && whitespace(v[b - 1])
        invariant
            from <= a <= b <= to <= v@.len(),
            s == v@.subrange(from as int, to as int),
            forall|j: int| b - from <= j < s.len() ==> is_ws(#[trigger] s[j]),
        decreases b,
    {
        b = b - 1;
    }
    proof {
        lemma_trim_start_skip(s, a - from);
        lemma_trim_end_skip(s, b - from);
        lemma_trim_bounds(s, a - from, b - from);
        if a == b && a < to {
            if trim_end(s, (b - from) as int) > 0 {
                assert(is_ws(s[trim_end(s, (b - from) as int) - 1]));
            }
        }
    }
    let r = string_of(v, a, b);
    assert(r@ =~= trim_spec(s)) by {
        if a < b {
            assert(s.subrange((a - from) as int, (b - from) as int) =~= v@.subrange(a as int, b as int));
        }
    }
    r
}

// ── Line splitting ──────────────────────────────────────────────

/// Index of the first newline at or after `i`, or the length of `s` if there is none.
pub open spec fn line_end(s: Seq<char>, i: int) -> int
    decreases s.len() - i,
{
    if i >= s.len() {
        s.len() as int
    } else if s[i] == '\n' {
        i
    } else {
        line_end(s, i + 1)
    }
}

/// The line `s[i..e]` without the carriage return of a `\r\n` ending.
pub open spec fn line_body(s: Seq<char>, i: int, e: int) -> Seq<char> {
    if i < e && e < s.len() && s[e - 1] == '\r' {
        s.subrange(i, e - 1)
    } else {
        s.subrange(i, e)
    }
}

/// The lines of `s` from index `i` on: split at `\n`, a `\r` before it dropped,
/// and no empty line after a final newline.
pub open spec fn lines_from(s: Seq<char>, i: int) -> Seq<Seq<char>>
    decreases s.len() + 1 - i,
{
    if i >= s.len() || i < 0 {
        Seq::empty()
    } else {
        proof {
            lemma_line_end_bounds(s, i);
        }
        seq![line_body(s, i, line_end(s, i))] + lines_from(s, line_end(s, i) + 1)
    }
}

/// The lines of `s`.
pub open spec fn lines_of(s: Seq<char>) -> Seq<Seq<char>> {
    lines_from(s, 0)
}

/// A line ends at or after where it starts, within the text.
pub proof fn lemma_line_end_bounds(s: Seq<char>, i: int)
    requires
        0 <= i <= s.len(),
    ensures
        i <= line_end(s, i) <= s.len(),
    decreases s.len() - i,
{
    if i < s.len() && s[i] != '\n' {
        lemma_line_end_bounds(s, i + 1);
    }
}

proof fn lemma_line_end_at(s: Seq<char>, i: int, j: int)
    requires
        0 <= i <= j <= s.len(),
        forall|k: int| i <= k < j ==> s[k] != '\n',
        j == s.len() || s[j] == '\n',
    ensures
        line_end(s, i) == j,
    decreases j - i,
{
    if i < j {
        lemma_line_end_at(s, i + 1, j);
    }
}

/// Split characters into lines, each as its own character vector.
pub fn split_lines(v: &Vec<char>) -> (r: Vec<Vec<char>>)
    ensures
        r@.map_values(|l: Vec<char>| l@) == lines_of(v@),
{
    let mut r: Vec<Vec<char>> = Vec::new();
    let mut start: usize = 0;
    let mut j: usize = 0;
    while j < v.len()
        invariant
            start <= j <= v@.len(),
            forall|k: int| start <= k < j ==> v@[k] != '\n',
            r@.map_values(|l: Vec<char>| l@) + lines_from(v@, start as int) == lines_of(v@),
        decreases v@.len() - j,
    {
        if v[j] == '\n' {
            proof {
                lemma_line_end_at(v@, start as int, j as int);
            }
            let end = if start < j && v[j - 1] == '\r' { j - 1 } else { j };
            let mut line: Vec<char> = Vec::new();
            let mut k: usize = start;
            while k < end
                invariant
                    start <= k <= end <= j < v@.len(),
                    line@ == v@.subrange(start as int, k as int),
                decreases end - k,
            {
                line.push(v[k]);
                k = k + 1;
            }
            let ghost old_r = r@.map_values(|l: Vec<char>| l@);
            r.push(line);
            assert(r@.map_values(|l: Vec<char>| l@) =~= old_r.push(line_body(v@, start as int, j as int)));
            assert(lines_from(v@, start as int) =~= seq![line_body(v@, start as int, j as int)]
                + lines_from(v@, j + 1));
            start = j + 1;
        }
        j = j + 1;
    }
    if start < v.len() {
        proof {
            lemma_line_end_at(v@, start as int, j as int);
        }
        let mut line: Vec<char> = Vec::new();
        let mut k: usize = start;
        while k < j
            invariant
                start <= k <= j == v@.len(),
                line@ == v@.subrange(start as int, k as int),
            decreases j - k,
        {
            line.push(v[k]);
            k = k + 1;
        }
        let ghost old_r = r@.map_values(|l: Vec<char>| l@);
        r.push(line);
        assert(r@.map_values(|l: Vec<char>| l@) =~= old_r.push(line_body(v@, start as int, j as int)));
        assert(lines_from(v@, start as int) =~= seq![line_body(v@, start as int, j as int)]
            + lines_from(v@, j + 1));
    }
    assert(r@.map_values(|l: Vec<char>| l@) =~= lines_of(v@));
    r
}

} // verus!
