//! Character-level text handling shared by the `/proc` parsers: Unicode
//! whitespace, word and line splitting, trimming, prefixes and searches.
//! Every parser in this crate works on the characters of its input and is
//! specified over `Seq<char>`.

use vstd::prelude::*;

verus! {

/// Unicode `White_Space`: the characters `char::is_whitespace` accepts.
pub open spec fn is_white(c: char) -> bool {
    ||| c == '\t' || c == '\n' || c == '\x0B' || c == '\x0C' || c == '\r' || c == ' '
    ||| c == '\u{85}' || c == '\u{A0}' || c == '\u{1680}'
    ||| ('\u{2000}' <= c && c <= '\u{200A}')
    ||| c == '\u{2028}' || c == '\u{2029}' || c == '\u{202F}' || c == '\u{205F}'
    ||| c == '\u{3000}'
}

/// Whether `c` is whitespace.
pub fn is_whitespace(c: char) -> (b: bool)
    ensures
        b == is_white(c),
{
    c == '\t' || c == '\n' || c == '\x0B' || c == '\x0C' || c == '\r' || c == ' '
        || c == '\u{85}' || c == '\u{A0}' || c == '\u{1680}' || ('\u{2000}' <= c && c
        <= '\u{200A}') || c == '\u{2028}' || c == '\u{2029}' || c == '\u{202F}' || c
        == '\u{205F}' || c == '\u{3000}'
}

/// The characters of `s`, in order.
pub fn chars_of(s: &str) -> (res: Vec<char>)
    ensures
        res@ == s@,
{
    let mut res: Vec<char> = Vec::new();
    for c in it: s.chars()
        invariant
            res@ == it.seq().take(it.index() as int),
            it.seq() == s@,
    {
        res.push(c);
    }
    res
}

// ---------------------------------------------------------------- words

/// The end of the run of non-whitespace characters that starts at `i`.
pub open spec fn word_end(s: Seq<char>, i: int) -> int
    decreases s.len() - i,
{
    if i < 0 || i >= s.len() || is_white(s[i]) {
        i
    } else {
        word_end(s, i + 1)
    }
}

pub proof fn lemma_word_end(s: Seq<char>, i: int)
    requires
        0 <= i <= s.len(),
    ensures
        i <= word_end(s, i) <= s.len(),
        i < s.len() && !is_white(s[i]) ==> word_end(s, i) > i,
        forall|j: int| i <= j < word_end(s, i) ==> !is_white(#[trigger] s[j]),
        word_end(s, i) < s.len() ==> is_white(s[word_end(s, i)]),
    decreases s.len() - i,
{
    if i < s.len() && !is_white(s[i]) {
        lemma_word_end(s, i + 1);
    }
}

/// The spans `(start, end)` of the maximal runs of non-whitespace
/// characters in `s` from position `i` on, left to right.
pub open spec fn word_spans_from(s: Seq<char>, i: int) -> Seq<(int, int)>
    decreases s.len() - i,
{
    if i < 0 || i >= s.len() {
        seq![]
    } else if is_white(s[i]) {
        word_spans_from(s, i + 1)
    } else {
        proof {
            lemma_word_end(s, i);
        }
        seq![(i, word_end(s, i))] + word_spans_from(s, word_end(s, i))
    }
}

/// What `str::split_whitespace` yields: the maximal runs of
/// non-whitespace characters, left to right.
pub open spec fn words(s: Seq<char>) -> Seq<Seq<char>> {
    word_spans_from(s, 0).map_values(|p: (int, int)| s.subrange(p.0, p.1))
}

pub open spec fn span_view(v: Seq<(usize, usize)>) -> Seq<(int, int)> {
    v.map_values(|p: (usize, usize)| (p.0 as int, p.1 as int))
}

/// The spans of the words of `s`.
pub fn word_spans(s: &[char]) -> (res: Vec<(usize, usize)>)
    ensures
        span_view(res@) == word_spans_from(s@, 0),
{
    let n = s.len();
    let mut res: Vec<(usize, usize)> = Vec::new();
    let mut i: usize = 0;
    while i < n
        invariant
            n == s@.len(),
            i <= n,
            span_view(res@) + word_spans_from(s@, i as int) == word_spans_from(s@, 0),
        decreases n - i,
    {
        if is_whitespace(s[i]) {
            i = i + 1;
        } else {
            let start = i;
            while i < n && !is_whitespace(s[i])
                invariant
                    n == s@.len(),
                    start <= i <= n,
                    word_end(s@, start as int) == word_end(s@, i as int),
                decreases n - i,
            {
                i = i + 1;
            }
            proof {
                lemma_word_end(s@, start as int);
            }
            let ghost before = res@;
            res.push((start, i));
            assert(span_view(res@) =~= span_view(before).push((start as int, i as int)));
            assert(span_view(res@) + word_spans_from(s@, i as int) =~= span_view(before)
                + word_spans_from(s@, start as int));
        }
    }
    res
}


pub proof fn lemma_word_spans_bounds(s: Seq<char>, i: int)
    requires
        0 <= i <= s.len(),
    ensures
        forall|k: int|
            0 <= k < word_spans_from(s, i).len() ==> i <= (#[trigger] word_spans_from(s, i)[k]).0
                < word_spans_from(s, i)[k].1 <= s.len(),
    decreases s.len() - i,
{
    if i < s.len() {
        if is_white(s[i]) {
            lemma_word_spans_bounds(s, i + 1);
            assert(word_spans_from(s, i) == word_spans_from(s, i + 1));
        } else {
            lemma_word_end(s, i);
            let e = word_end(s, i);
            lemma_word_spans_bounds(s, e);
            let rest = word_spans_from(s, e);
            assert(word_spans_from(s, i) == seq![(i, e)] + rest);
            assert forall|k: int| 0 <= k < word_spans_from(s, i).len() implies i <= (
            #[trigger] word_spans_from(s, i)[k]).0 < word_spans_from(s, i)[k].1 <= s.len() by {
                if k > 0 {
                    assert(word_spans_from(s, i)[k] == rest[k - 1]);
                }
            }
        }
    }
}

/// The words of `s`, as `str::split_whitespace` yields them.
pub fn split_words(s: &[char]) -> (res: Vec<&[char]>)
    ensures
        res@.len() == words(s@).len(),
        forall|k: int| 0 <= k < res@.len() ==> (#[trigger] res@[k])@ == words(s@)[k],
{
    let spans = word_spans(s);
    proof {
        lemma_word_spans_bounds(s@, 0);
    }
    let mut res: Vec<&[char]> = Vec::new();
    let mut k: usize = 0;
    while k < spans.len()
        invariant
            span_view(spans@) == word_spans_from(s@, 0),
            k <= spans@.len(),
            res@.len() == k,
            forall|j: int| 0 <= j < k ==> (#[trigger] res@[j])@ == words(s@)[j],
        decreases spans@.len() - k,
    {
        let (a, b) = spans[k];
        assert(span_view(spans@)[k as int] == (a as int, b as int));
        proof {
            lemma_word_spans_bounds(s@, 0);
        }
        assert(word_spans_from(s@, 0)[k as int] == span_view(spans@)[k as int]);
        res.push(vstd::slice::slice_subrange(s, a, b));
        k = k + 1;
    }
    res
}

// ---------------------------------------------------------------- lines

/// The position of the first `'\n'` at or after `i`, or the length of `s`.
pub open spec fn newline_from(s: Seq<char>, i: int) -> int
    decreases s.len() - i,
{
    if i < 0 || i >= s.len() || s[i] == '\n' {
        i
    } else {
        newline_from(s, i + 1)
    }
}

pub proof fn lemma_newline_from(s: Seq<char>, i: int)
    requires
        0 <= i <= s.len(),
    ensures
        i <= newline_from(s, i) <= s.len(),
        forall|j: int| i <= j < newline_from(s, i) ==> #[trigger] s[j] != '\n',
        newline_from(s, i) < s.len() ==> s[newline_from(s, i)] == '\n',
    decreases s.len() - i,
{
    if i < s.len() && s[i] != '\n' {
        lemma_newline_from(s, i + 1);
    }
}

/// The end of the line that starts at `i` and runs to `nl`, the position of
/// its `'\n'` (or the end of the text): a `'\r'` before the `'\n'` belongs
/// to the line ending.
pub open spec fn line_content_end(s: Seq<char>, i: int, nl: int) -> int {
    if nl < s.len() && nl > i && s[nl - 1] == '\r' {
        nl - 1
    } else {
        nl
    }
}

/// The spans of the lines of `s` from position `i` on, as `str::lines`
/// cuts them: at each `'\n'` or `"\r\n"`, with no empty line after a final
/// line ending.
pub open spec fn line_spans_from(s: Seq<char>, i: int) -> Seq<(int, int)>
    decreases s.len() + 1 - i,
{
    if i < 0 || i >= s.len() {
        seq![]
    } else {
        proof {
            lemma_newline_from(s, i);
        }
        let nl = newline_from(s, i);
        seq![(i, line_content_end(s, i, nl))] + line_spans_from(s, nl + 1)
    }
}

/// What `str::lines` yields.
pub open spec fn lines(s: Seq<char>) -> Seq<Seq<char>> {
    line_spans_from(s, 0).map_values(|p: (int, int)| s.subrange(p.0, p.1))
}

pub proof fn lemma_line_spans_bounds(s: Seq<char>, i: int)
    requires
        0 <= i,
    ensures
        forall|k: int|
            0 <= k < line_spans_from(s, i).len() ==> i <= (#[trigger] line_spans_from(s, i)[k]).0
                <= line_spans_from(s, i)[k].1 <= s.len(),
        i >= s.len() ==> line_spans_from(s, i).len() == 0,
    decreases s.len() + 1 - i,
{
    if i < s.len() {
        lemma_newline_from(s, i);
        let nl = newline_from(s, i);
        lemma_line_spans_bounds(s, nl + 1);
        let rest = line_spans_from(s, nl + 1);
        assert(line_spans_from(s, i) == seq![(i, line_content_end(s, i, nl))] + rest);
        assert forall|k: int| 0 <= k < line_spans_from(s, i).len() implies i <= (
        #[trigger] line_spans_from(s, i)[k]).0 <= line_spans_from(s, i)[k].1 <= s.len() by {
            if k > 0 {
                assert(line_spans_from(s, i)[k] == rest[k - 1]);
            }
        }
    }
}

/// The lines of `s`, as `str::lines` yields them.
pub fn split_lines(s: &[char]) -> (res: Vec<&[char]>)
    ensures
        res@.len() == lines(s@).len(),
        forall|k: int| 0 <= k < res@.len() ==> (#[trigger] res@[k])@ == lines(s@)[k],
{
    let n = s.len();
    let mut spans: Vec<(usize, usize)> = Vec::new();
    let mut i: usize = 0;
    while i < n
        invariant
            n == s@.len(),
            i <= n,
            span_view(spans@) + line_spans_from(s@, i as int) == line_spans_from(s@, 0),
        decreases n - i,
    {
        let start = i;
        while i < n && s[i] != '\n'
            invariant
                n == s@.len(),
                start <= i <= n,
                newline_from(s@, start as int) == newline_from(s@, i as int),
            decreases n - i,
        {
            i = i + 1;
        }
        proof {
            lemma_newline_from(s@, start as int);
        }
        let end = if i < n && i > start && s[i - 1] == '\r' {
            i - 1
        } else {
            i
        };
        let ghost before = spans@;
        spans.push((start, end));
        assert(span_view(spans@) =~= span_view(before).push((start as int, end as int)));
        let ghost next = if i < n { i + 1 } else { i as int };
        assert(line_spans_from(s@, next) == line_spans_from(s@, i + 1));
        assert(span_view(spans@) + line_spans_from(s@, next) =~= span_view(before)
            + line_spans_from(s@, start as int));
        if i < n {
            i = i + 1;
        }
    }
    proof {
        lemma_line_spans_bounds(s@, 0);
    }
    let mut res: Vec<&[char]> = Vec::new();
    let mut k: usize = 0;
    while k < spans.len()
        invariant
            span_view(spans@) == line_spans_from(s@, 0),
            k <= spans@.len(),
            res@.len() == k,
            forall|j: int| 0 <= j < k ==> (#[trigger] res@[j])@ == lines(s@)[j],
        decreases spans@.len() - k,
    {
        let (a, b) = spans[k];
        assert(span_view(spans@)[k as int] == (a as int, b as int));
        proof {
            lemma_line_spans_bounds(s@, 0);
        }
        assert(line_spans_from(s@, 0)[k as int] == span_view(spans@)[k as int]);
        res.push(vstd::slice::slice_subrange(s, a, b));
        k = k + 1;
    }
    res
}


// ---------------------------------------------------------------- trimming

/// The position of the first non-whitespace character at or after `i`, or
/// the length of `t`.
pub open spec fn skip_white(t: Seq<char>, i: int) -> int
    decreases t.len() - i,
{
    if i < 0 || i >= t.len() || !is_white(t[i]) {
        i
    } else {
        skip_white(t, i + 1)
    }
}

/// The position just after the last non-whitespace character before `j`,
/// or 0.
pub open spec fn skip_white_back(t: Seq<char>, j: int) -> int
    decreases j,
{
    if j <= 0 || j > t.len() || !is_white(t[j - 1]) {
        j
    } else {
        skip_white_back(t, j - 1)
    }
}

/// `str::trim_start`.
pub open spec fn trim_start(t: Seq<char>) -> Seq<char> {
    t.subrange(skip_white(t, 0), t.len() as int)
}

/// `str::trim_end`.
pub open spec fn trim_end(t: Seq<char>) -> Seq<char> {
    t.subrange(0, skip_white_back(t, t.len() as int))
}

/// `str::trim`: leading and trailing whitespace removed.
pub open spec fn trim(t: Seq<char>) -> Seq<char> {
    trim_end(trim_start(t))
}

pub proof fn lemma_skip_white(t: Seq<char>, i: int)
    requires
        0 <= i <= t.len(),
    ensures
        i <= skip_white(t, i) <= t.len(),
    decreases t.len() - i,
{
    if i < t.len() && is_white(t[i]) {
        lemma_skip_white(t, i + 1);
    }
}

pub proof fn lemma_skip_white_back(t: Seq<char>, j: int)
    requires
        0 <= j <= t.len(),
    ensures
        0 <= skip_white_back(t, j) <= j,
    decreases j,
{
    if j > 0 && is_white(t[j - 1]) {
        lemma_skip_white_back(t, j - 1);
    }
}

/// Every character of `w` is whitespace.
pub open spec fn all_white(w: Seq<char>) -> bool {
    forall|i: int| 0 <= i < w.len() ==> is_white(#[trigger] w[i])
}

pub proof fn lemma_skip_white_exact(t: Seq<char>, i: int, p: int)
    requires
        0 <= i <= p <= t.len(),
        forall|k: int| i <= k < p ==> is_white(#[trigger] t[k]),
        p == t.len() || !is_white(t[p]),
    ensures
        skip_white(t, i) == p,
    decreases p - i,
{
    if i < p {
        lemma_skip_white_exact(t, i + 1, p);
    }
}

pub proof fn lemma_skip_white_back_exact(t: Seq<char>, j: int, p: int)
    requires
        0 <= p <= j <= t.len(),
        forall|k: int| p <= k < j ==> is_white(#[trigger] t[k]),
        p == 0 || !is_white(t[p - 1]),
    ensures
        skip_white_back(t, j) == p,
    decreases j - p,
{
    if p < j {
        lemma_skip_white_back_exact(t, j - 1, p);
    }
}

pub proof fn lemma_skip_white_back_props(t: Seq<char>, j: int)
    requires
        0 <= j <= t.len(),
    ensures
        0 <= skip_white_back(t, j) <= j,
        forall|k: int| skip_white_back(t, j) <= k < j ==> is_white(#[trigger] t[k]),
        skip_white_back(t, j) > 0 ==> !is_white(t[skip_white_back(t, j) - 1]),
    decreases j,
{
    if j > 0 && is_white(t[j - 1]) {
        lemma_skip_white_back_props(t, j - 1);
    }
}

/// Leading whitespace is what `trim_start` removes.
pub proof fn lemma_trim_start_white(w: Seq<char>, t: Seq<char>)
    requires
        all_white(w),
        t.len() == 0 || !is_white(t[0]),
    ensures
        trim_start(w + t) == t,
{
    let s = w + t;
    assert forall|k: int| 0 <= k < w.len() implies is_white(#[trigger] s[k]) by {
        assert(s[k] == w[k]);
    }
    if t.len() > 0 {
        assert(s[w.len() as int] == t[0]);
    }
    lemma_skip_white_exact(s, 0, w.len() as int);
    assert(s.subrange(w.len() as int, s.len() as int) =~= t);
}

/// Trailing whitespace is what `trim_end` removes.
pub proof fn lemma_trim_end_white(t: Seq<char>, w: Seq<char>)
    requires
        all_white(w),
        t.len() == 0 || !is_white(t.last()),
    ensures
        trim_end(t + w) == t,
{
    let s = t + w;
    assert forall|k: int| t.len() <= k < s.len() implies is_white(#[trigger] s[k]) by {
        assert(s[k] == w[k - t.len()]);
    }
    if t.len() > 0 {
        assert(s[t.len() - 1] == t.last());
    }
    lemma_skip_white_back_exact(s, s.len() as int, t.len() as int);
    assert(s.subrange(0, t.len() as int) =~= t);
}

/// `s` without its leading and trailing whitespace.
pub fn trim_chars(s: &[char]) -> (res: &[char])
    ensures
        res@ == trim(s@),
{
    let n = s.len();
    let mut a: usize = 0;
    while a < n && is_whitespace(s[a])
        invariant
            n == s@.len(),
            a <= n,
            skip_white(s@, 0) == skip_white(s@, a as int),
        decreases n - a,
    {
        a = a + 1;
    }
    let u = vstd::slice::slice_subrange(s, a, n);
    let m = u.len();
    let mut b: usize = m;
    while b > 0 && is_whitespace(u[b - 1])
        invariant
            m == u@.len(),
            b <= m,
            skip_white_back(u@, m as int) == skip_white_back(u@, b as int),
        decreases b,
    {
        b = b - 1;
    }
    vstd::slice::slice_subrange(u, 0, b)
}

// ---------------------------------------------------------------- prefixes and searching

/// `t` begins with `p`.
pub open spec fn has_prefix(t: Seq<char>, p: Seq<char>) -> bool {
    p.len() <= t.len() && t.subrange(0, p.len() as int) == p
}

/// `t` ends with `p`.
pub open spec fn has_suffix(t: Seq<char>, p: Seq<char>) -> bool {
    p.len() <= t.len() && t.subrange(t.len() - p.len(), t.len() as int) == p
}

/// `k` occurs in `t` at position `i`.
pub open spec fn occurs_at(t: Seq<char>, k: Seq<char>, i: int) -> bool {
    0 <= i && i + k.len() <= t.len() && t.subrange(i, i + k.len()) == k
}

/// The first position at or after `i` at which `k` occurs in `t`.
pub open spec fn find_from(t: Seq<char>, k: Seq<char>, i: int) -> Option<int>
    decreases t.len() + 1 - i,
{
    if i < 0 || i + k.len() > t.len() {
        None
    } else if occurs_at(t, k, i) {
        Some(i)
    } else {
        find_from(t, k, i + 1)
    }
}

/// `str::find` with a pattern string: where `k` first occurs in `t`.
pub open spec fn find(t: Seq<char>, k: Seq<char>) -> Option<int> {
    find_from(t, k, 0)
}

pub proof fn lemma_find_from(t: Seq<char>, k: Seq<char>, i: int)
    requires
        0 <= i,
    ensures
        find_from(t, k, i) matches Some(p) ==> i <= p && occurs_at(t, k, p) && forall|j: int|
            i <= j < p ==> !occurs_at(t, k, j),
        find_from(t, k, i) is None ==> forall|j: int| i <= j ==> !occurs_at(t, k, j),
    decreases t.len() + 1 - i,
{
    if i + k.len() <= t.len() && !occurs_at(t, k, i) {
        lemma_find_from(t, k, i + 1);
    }
}

/// Whether `k` occurs in `s` at position `i`.
pub fn matches_at(s: &[char], k: &[char], i: usize) -> (b: bool)
    ensures
        b == occurs_at(s@, k@, i as int),
{
    let n = s.len();
    if i > n || k.len() > n - i {
        return false;
    }
    let mut j: usize = 0;
    while j < k.len()
        invariant
            n == s@.len(),
            i + k@.len() <= s@.len(),
            j <= k@.len(),
            forall|q: int| 0 <= q < j ==> s@[i + q] == k@[q],
        decreases k@.len() - j,
    {
        if s[i + j] != k[j] {
            assert(s@.subrange(i as int, i + k@.len())[j as int] != k@[j as int]);
            return false;
        }
        j = j + 1;
    }
    assert(s@.subrange(i as int, i + k@.len()) =~= k@);
    true
}

/// Whether `a` and `b` hold the same characters.
pub fn chars_eq(a: &[char], b: &[char]) -> (res: bool)
    ensures
        res == (a@ == b@),
{
    if a.len() != b.len() {
        return false;
    }
    let r = matches_at(a, b, 0);
    assert(a@.subrange(0, b@.len() as int) =~= a@);
    r
}

/// Whether `s` begins with `p`.
pub fn starts_with(s: &[char], p: &[char]) -> (b: bool)
    ensures
        b == has_prefix(s@, p@),
{
    matches_at(s, p, 0)
}

/// Whether `s` ends with `p`.
pub fn ends_with(s: &[char], p: &[char]) -> (b: bool)
    ensures
        b == has_suffix(s@, p@),
{
    if p.len() > s.len() {
        false
    } else {
        matches_at(s, p, s.len() - p.len())
    }
}

/// Where `k` first occurs in `s`.
pub fn find_chars(s: &[char], k: &[char]) -> (res: Option<usize>)
    ensures
        res matches Some(i) ==> find(s@, k@) == Some(i as int) && occurs_at(s@, k@, i as int),
        res is None ==> find(s@, k@) is None,
{
    proof {
        lemma_find_from(s@, k@, 0);
    }
    let n = s.len();
    if k.len() > n {
        return None;
    }
    let last = n - k.len();
    let mut i: usize = 0;
    loop
        invariant
            k@.len() <= n == s@.len(),
            last == n - k@.len(),
            i <= last,
            find_from(s@, k@, 0) == find_from(s@, k@, i as int),
        decreases last - i,
    {
        if matches_at(s, k, i) {
            return Some(i);
        }
        if i == last {
            assert(find_from(s@, k@, i + 1) is None);
            return None;
        }
        i = i + 1;
    }
}

// ---------------------------------------------------------------- building strings

/// Calls `String::push`, which the standard library documents as appending
/// the character to the end of the string; the contract claims exactly
/// that: the new text is the old one followed by `c`.
#[verifier::external_body]
pub fn push_char(s: &mut String, c: char)
    ensures
        final(s)@ == old(s)@.push(c),
{
    s.push(c);
}

/// A `String` holding the characters of `s`.
pub fn string_of(s: &[char]) -> (res: String)
    ensures
        res@ == s@,
{
    let mut res = String::new();
    let mut i: usize = 0;
    while i < s.len()
        invariant
            i <= s@.len(),
            res@ == s@.subrange(0, i as int),
        decreases s@.len() - i,
    {
        push_char(&mut res, s[i]);
        assert(s@.subrange(0, i + 1) =~= s@.subrange(0, i as int).push(s@[i as int]));
        i = i + 1;
    }
    assert(s@.subrange(0, s@.len() as int) =~= s@);
    res
}

} // verus!
