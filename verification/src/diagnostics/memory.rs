//! Memory and swap from `/proc/meminfo`.

use vstd::prelude::*;
use crate::numbers::{decimal, is_digit, lemma_decimal_value, lemma_parse_decimal, parse_u64, read_u64};
use crate::text::{
    all_white, chars_of, ends_with, has_prefix, has_suffix, lemma_skip_white_back_exact,
    lemma_skip_white_back_props, lemma_trim_end_white, lemma_trim_start_white,
    lines, skip_white, skip_white_back, split_lines, starts_with, trim, trim_chars, trim_end,
};

verus! {

/// Memory and swap, in kB as `/proc/meminfo` gives them.
#[derive(Clone, Copy, Debug, PartialEq, Eq)]
pub struct MemoryReport {
    pub total_kb: u64,
    pub available_kb: u64,
    /// Total less available, or 0 where available exceeds total.
    pub used_kb: u64,
    pub swap_total_kb: u64,
    pub swap_free_kb: u64,
    /// Swap total less free, or 0 where free exceeds total.
    pub swap_used_kb: u64,
}

/// The value of a line `key  <number> kB`: the line begins with `key`;
/// what follows, trimmed, ends with `kB`; and what precedes that, trimmed,
/// is a `u64`.
pub open spec fn kb_value(line: Seq<char>, key: Seq<char>) -> Option<u64> {
    if has_prefix(line, key) {
        let rest = trim(line.subrange(key.len() as int, line.len() as int));
        if has_suffix(rest, seq!['k', 'B']) {
            parse_u64(trim(rest.subrange(0, rest.len() - 2)))
        } else {
            None
        }
    } else {
        None
    }
}

/// A line made of `key`, whitespace, the decimal notation of `v`,
/// whitespace, `kB` and trailing whitespace reads back as `v`.
pub proof fn lemma_kb_round_trip(key: Seq<char>, sp1: Seq<char>, v: u64, sp2: Seq<char>, sp3: Seq<char>)
    requires
        all_white(sp1),
        all_white(sp2),
        all_white(sp3),
    ensures
        kb_value(key + sp1 + decimal(v as nat) + sp2 + "kB"@ + sp3, key) == Some(v),
{
    reveal_strlit("kB");
    let unit = "kB"@;
    assert(unit =~= seq!['k', 'B']);
    let d = decimal(v as nat);
    lemma_decimal_value(v as nat);
    lemma_parse_decimal(v);
    assert(is_digit(d[0]) && is_digit(d.last()));
    let line = key + sp1 + d + sp2 + unit + sp3;
    assert(line.subrange(0, key.len() as int) =~= key);
    let tail = d + sp2 + unit;
    let after = line.subrange(key.len() as int, line.len() as int);
    assert(after =~= sp1 + (tail + sp3));
    assert((tail + sp3)[0] == d[0]);
    lemma_trim_start_white(sp1, tail + sp3);
    assert(tail.last() == 'B');
    lemma_trim_end_white(tail, sp3);
    let rest = trim(after);
    assert(rest == tail);
    assert(rest.subrange(rest.len() - 2, rest.len() as int) =~= seq!['k', 'B']);
    let number = rest.subrange(0, rest.len() - 2);
    assert(number =~= d + sp2);
    assert(Seq::<char>::empty() + number =~= number);
    lemma_trim_start_white(Seq::<char>::empty(), number);
    assert(number[0] == d[0]);
    lemma_trim_end_white(d, sp2);
    assert(trim(number) == d);
}

/// A line that holds a value for `key` begins with `key` and, trailing
/// whitespace aside, ends with `kB`.
pub proof fn lemma_kb_line_shape(line: Seq<char>, key: Seq<char>)
    ensures
        kb_value(line, key) is Some ==> has_prefix(line, key) && has_suffix(trim_end(line), seq!['k', 'B']),
{
    if kb_value(line, key) is Some {
        let k = key.len() as int;
        let n = line.len() as int;
        let u = line.subrange(k, n);
        let a = skip_white(u, 0);
        crate::text::lemma_skip_white(u, 0);
        let u2 = u.subrange(a, u.len() as int);
        lemma_skip_white_back_props(u2, u2.len() as int);
        let b = skip_white_back(u2, u2.len() as int);
        let rest = u2.subrange(0, b);
        assert(rest == trim(u));
        assert(b >= 2);
        assert(rest[b - 1] == 'B' && rest[b - 2] == 'k') by {
            assert(rest.subrange(b - 2, b) =~= seq!['k', 'B']);
            assert(rest.subrange(b - 2, b)[1] == rest[b - 1]);
            assert(rest.subrange(b - 2, b)[0] == rest[b - 2]);
        }
        let p = k + a + b;
        assert(line[p - 1] == u2[b - 1]);
        assert(line[p - 2] == u2[b - 2]);
        assert forall|q: int| p <= q < n implies crate::text::is_white(#[trigger] line[q]) by {
            assert(line[q] == u2[q - k - a]);
        }
        lemma_skip_white_back_exact(line, n, p);
        let te = trim_end(line);
        assert(te =~= line.subrange(0, p));
        assert(te.subrange(te.len() - 2, te.len() as int) =~= seq!['k', 'B']);
    }
}

/// Reads the value of a `/proc/meminfo` line for `key` (such as
/// `"MemTotal:"`), or `None` where the line is not one for `key` or holds
/// no number of kB.
pub fn parse_kb(line: &str, key: &str) -> (res: Option<u64>)
    ensures
        res == kb_value(line@, key@),
{
    let l = chars_of(line);
    let k = chars_of(key);
    kb_of(l.as_slice(), k.as_slice())
}

fn kb_of(l: &[char], k: &[char]) -> (res: Option<u64>)
    ensures
        res == kb_value(l@, k@),
{
    if !starts_with(l, k) {
        return None;
    }
    let rest = trim_chars(vstd::slice::slice_subrange(l, k.len(), l.len()));
    let unit = vec!['k', 'B'];
    assert(unit@ =~= seq!['k', 'B']);
    if !ends_with(rest, unit.as_slice()) {
        return None;
    }
    let number = trim_chars(vstd::slice::slice_subrange(rest, 0, rest.len() - 2));
    read_u64(number)
}

/// The value of the last line among `ls` that holds one for `key`, or 0.
pub open spec fn last_kb(ls: Seq<Seq<char>>, key: Seq<char>) -> u64
    decreases ls.len(),
{
    if ls.len() == 0 {
        0
    } else {
        match kb_value(ls.last(), key) {
            Some(v) => v,
            None => last_kb(ls.drop_last(), key),
        }
    }
}

/// A later line for a key overrides an earlier one: the value read is that
/// of a line for the key after which no line holds one, or 0 where no line
/// holds one at all.
pub proof fn lemma_last_line_wins(ls: Seq<Seq<char>>, key: Seq<char>)
    ensures
        (exists|k: int|
            0 <= k < ls.len() && kb_value(#[trigger] ls[k], key) == Some(last_kb(ls, key))
                && forall|j: int| k < j < ls.len() ==> kb_value(#[trigger] ls[j], key) is None)
            || (last_kb(ls, key) == 0 && forall|j: int|
            0 <= j < ls.len() ==> kb_value(#[trigger] ls[j], key) is None),
    decreases ls.len(),
{
    if ls.len() > 0 {
        let n = ls.len() - 1;
        let init = ls.drop_last();
        if kb_value(ls.last(), key) is Some {
            assert(kb_value(ls[n], key) == Some(last_kb(ls, key)));
        } else {
            lemma_last_line_wins(init, key);
            if exists|k: int|
                0 <= k < init.len() && kb_value(#[trigger] init[k], key) == Some(last_kb(init, key))
                    && forall|j: int| k < j < init.len() ==> kb_value(#[trigger] init[j], key) is None {
                let k = choose|k: int|
                    0 <= k < init.len() && kb_value(#[trigger] init[k], key) == Some(last_kb(init, key))
                        && forall|j: int| k < j < init.len() ==> kb_value(#[trigger] init[j], key) is None;
                assert(ls[k] == init[k]);
                assert forall|j: int| k < j < ls.len() implies kb_value(#[trigger] ls[j], key) is None by {
                    if j < n {
                        assert(ls[j] == init[j]);
                    }
                }
            } else {
                assert forall|j: int| 0 <= j < ls.len() implies kb_value(#[trigger] ls[j], key) is None by {
                    if j < n {
                        assert(ls[j] == init[j]);
                    }
                }
            }
        }
    }
}

pub open spec fn saturating_sub(x: u64, y: u64) -> u64 {
    if x >= y {
        (x - y) as u64
    } else {
        0
    }
}

/// What `/proc/meminfo` holding `content` reads as: each quantity is the
/// value of the last line for its key (0 where there is none), and the
/// used amounts are derived from them.
pub open spec fn meminfo(content: Seq<char>) -> MemoryReport {
    let ls = lines(content);
    let total = last_kb(ls, "MemTotal:"@);
    let available = last_kb(ls, "MemAvailable:"@);
    let swap_total = last_kb(ls, "SwapTotal:"@);
    let swap_free = last_kb(ls, "SwapFree:"@);
    MemoryReport {
        total_kb: total,
        available_kb: available,
        used_kb: saturating_sub(total, available),
        swap_total_kb: swap_total,
        swap_free_kb: swap_free,
        swap_used_kb: saturating_sub(swap_total, swap_free),
    }
}

/// Used memory never exceeds the total, and with available memory adds up
/// to it wherever available does not exceed the total; the same holds of
/// swap.
pub proof fn lemma_used_within_total(content: Seq<char>)
    ensures
        meminfo(content).used_kb <= meminfo(content).total_kb,
        meminfo(content).available_kb <= meminfo(content).total_kb ==> meminfo(content).used_kb
            + meminfo(content).available_kb == meminfo(content).total_kb,
        meminfo(content).swap_used_kb <= meminfo(content).swap_total_kb,
        meminfo(content).swap_free_kb <= meminfo(content).swap_total_kb ==> meminfo(
            content,
        ).swap_used_kb + meminfo(content).swap_free_kb == meminfo(content).swap_total_kb,
{
}

/// Reads `/proc/meminfo`.
pub fn parse_meminfo(content: &str) -> (res: MemoryReport)
    ensures
        res == meminfo(content@),
{
    let chars = chars_of(content);
    let ls = split_lines(chars.as_slice());
    let ghost l = lines(content@);
    let k_total = chars_of("MemTotal:");
    let k_available = chars_of("MemAvailable:");
    let k_swap_total = chars_of("SwapTotal:");
    let k_swap_free = chars_of("SwapFree:");
    let mut total: u64 = 0;
    let mut available: u64 = 0;
    let mut swap_total: u64 = 0;
    let mut swap_free: u64 = 0;
    let mut i: usize = 0;
    while i < ls.len()
        invariant
            ls@.len() == l.len(),
            l == lines(content@),
            forall|j: int| 0 <= j < l.len() ==> (#[trigger] ls@[j])@ == l[j],
            k_total@ == "MemTotal:"@,
            k_available@ == "MemAvailable:"@,
            k_swap_total@ == "SwapTotal:"@,
            k_swap_free@ == "SwapFree:"@,
            i <= l.len(),
            total == last_kb(l.subrange(0, i as int), "MemTotal:"@),
            available == last_kb(l.subrange(0, i as int), "MemAvailable:"@),
            swap_total == last_kb(l.subrange(0, i as int), "SwapTotal:"@),
            swap_free == last_kb(l.subrange(0, i as int), "SwapFree:"@),
        decreases l.len() - i,
    {
        let line = ls[i];
        let ghost prefix = l.subrange(0, i + 1);
        assert(prefix.drop_last() =~= l.subrange(0, i as int));
        assert(prefix.last() == line@);
        if let Some(v) = kb_of(line, k_total.as_slice()) {
            total = v;
        }
        if let Some(v) = kb_of(line, k_available.as_slice()) {
            available = v;
        }
        if let Some(v) = kb_of(line, k_swap_total.as_slice()) {
            swap_total = v;
        }
        if let Some(v) = kb_of(line, k_swap_free.as_slice()) {
            swap_free = v;
        }
        i = i + 1;
    }
    assert(l.subrange(0, l.len() as int) =~= l);
    MemoryReport {
        total_kb: total,
        available_kb: available,
        used_kb: total.saturating_sub(available),
        swap_total_kb: swap_total,
        swap_free_kb: swap_free,
        swap_used_kb: swap_total.saturating_sub(swap_free),
    }
}

} // verus!
