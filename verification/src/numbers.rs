//! Decimal numbers as `str::parse` reads them: unsigned integers
//! (`u64`, `u32`) and the syntax of floating-point literals.

use vstd::prelude::*;
use crate::text::{find, find_chars};

verus! {

pub open spec fn is_digit(c: char) -> bool {
    '0' <= c && c <= '9'
}

pub open spec fn all_digits(d: Seq<char>) -> bool {
    forall|i: int| 0 <= i < d.len() ==> is_digit(#[trigger] d[i])
}

/// The value of a string of decimal digits.
pub open spec fn digits_value(d: Seq<char>) -> nat
    decreases d.len(),
{
    if d.len() == 0 {
        0
    } else {
        digits_value(d.drop_last()) * 10 + (d.last() as int - '0' as int) as nat
    }
}

/// `t` without one leading `'+'`.
pub open spec fn unsigned_body(t: Seq<char>) -> Seq<char> {
    if t.len() > 0 && t[0] == '+' {
        t.drop_first()
    } else {
        t
    }
}

/// The value of an unsigned decimal: an optional `'+'` and at least one
/// digit, nothing else.
pub open spec fn decimal_value(t: Seq<char>) -> Option<nat> {
    let d = unsigned_body(t);
    if d.len() > 0 && all_digits(d) {
        Some(digits_value(d))
    } else {
        None
    }
}

/// `t.parse::<u64>()`, as an `Option`.
pub open spec fn parse_u64(t: Seq<char>) -> Option<u64> {
    if decimal_value(t) is Some && decimal_value(t)->0 <= u64::MAX {
        Some(decimal_value(t)->0 as u64)
    } else {
        None
    }
}

/// `t.parse::<u32>()`, as an `Option`.
pub open spec fn parse_u32(t: Seq<char>) -> Option<u32> {
    if decimal_value(t) is Some && decimal_value(t)->0 <= u32::MAX {
        Some(decimal_value(t)->0 as u32)
    } else {
        None
    }
}

/// `t.parse::<u64>().unwrap_or(0)`.
pub open spec fn u64_or_zero(t: Seq<char>) -> u64 {
    match parse_u64(t) {
        Some(v) => v,
        None => 0,
    }
}

pub proof fn lemma_digits_prefix(d: Seq<char>, k: int)
    requires
        0 <= k <= d.len(),
    ensures
        digits_value(d.subrange(0, k)) <= digits_value(d),
    decreases d.len(),
{
    if k < d.len() {
        lemma_digits_prefix(d.drop_last(), k);
        assert(d.drop_last().subrange(0, k) =~= d.subrange(0, k));
    } else {
        assert(d.subrange(0, k) =~= d);
    }
}

/// Whether every character of `s` is a decimal digit.
pub fn all_digits_in(s: &[char]) -> (b: bool)
    ensures
        b == all_digits(s@),
{
    let mut i: usize = 0;
    while i < s.len()
        invariant
            i <= s@.len(),
            all_digits(s@.subrange(0, i as int)),
        decreases s@.len() - i,
    {
        if !('0' <= s[i] && s[i] <= '9') {
            return false;
        }
        assert(s@.subrange(0, i + 1) =~= s@.subrange(0, i as int).push(s@[i as int]));
        i = i + 1;
    }
    assert(s@.subrange(0, s@.len() as int) =~= s@);
    true
}

/// `s.parse::<u64>().ok()`.
pub fn read_u64(s: &[char]) -> (res: Option<u64>)
    ensures
        res == parse_u64(s@),
{
    let n = s.len();
    let start: usize = if n > 0 && s[0] == '+' {
        1
    } else {
        0
    };
    let ghost d = unsigned_body(s@);
    assert(d =~= s@.subrange(start as int, n as int));
    if start == n {
        return None;
    }
    let mut acc: u64 = 0;
    let mut i: usize = start;
    while i < n
        invariant
            n == s@.len(),
            start <= i <= n,
            d == s@.subrange(start as int, n as int),
            d == unsigned_body(s@),
            all_digits(d.subrange(0, i - start)),
            acc == digits_value(d.subrange(0, i - start)),
        decreases n - i,
    {
        let c = s[i];
        if !('0' <= c && c <= '9') {
            assert(d[i - start] == c);
            assert(!is_digit(d[i - start]));
            return None;
        }
        let digit: u64 = (c as u64) - ('0' as u64);
        let ghost next = d.subrange(0, i + 1 - start);
        assert(next.drop_last() =~= d.subrange(0, i - start));
        assert(next.last() == c);
        assert(all_digits(next));
        assert(digits_value(next) == acc * 10 + digit);
        match acc.checked_mul(10) {
            Some(m) => match m.checked_add(digit) {
                Some(v) => {
                    acc = v;
                },
                None => {
                    proof {
                        assert(m == acc * 10);
                        if all_digits(d) {
                            lemma_digits_prefix(d, i + 1 - start);
                        }
                    }
                    return None;
                },
            },
            None => {
                proof {
                    if all_digits(d) {
                        lemma_digits_prefix(d, i + 1 - start);
                    }
                }
                return None;
            },
        }
        i = i + 1;
    }
    assert(d.subrange(0, n - start) =~= d);
    Some(acc)
}

/// `s.parse::<u32>().ok()`.
pub fn read_u32(s: &[char]) -> (res: Option<u32>)
    ensures
        res == parse_u32(s@),
{
    match read_u64(s) {
        Some(v) => if v <= 4294967295 {
            Some(v as u32)
        } else {
            None
        },
        None => None,
    }
}

/// `s.parse::<u64>().unwrap_or(0)`.
pub fn read_u64_or_zero(s: &[char]) -> (res: u64)
    ensures
        res == u64_or_zero(s@),
{
    match read_u64(s) {
        Some(v) => v,
        None => 0,
    }
}

/// The decimal digit `d`.
pub open spec fn digit_char(d: int) -> char {
    seq!['0', '1', '2', '3', '4', '5', '6', '7', '8', '9'][d]
}

/// The decimal notation of `n`.
pub open spec fn decimal(n: nat) -> Seq<char>
    decreases n,
{
    if n < 10 {
        seq![digit_char(n as int)]
    } else {
        decimal(n / 10).push(digit_char((n % 10) as int))
    }
}

pub proof fn lemma_digit_char(d: int)
    requires
        0 <= d < 10,
    ensures
        is_digit(digit_char(d)),
        digit_char(d) as int - '0' as int == d,
{
    let t = seq!['0', '1', '2', '3', '4', '5', '6', '7', '8', '9'];
    assert(t[0] == '0' && t[1] == '1' && t[2] == '2' && t[3] == '3' && t[4] == '4');
    assert(t[5] == '5' && t[6] == '6' && t[7] == '7' && t[8] == '8' && t[9] == '9');
}

/// The decimal notation of a number reads back as that number.
pub proof fn lemma_decimal_value(n: nat)
    ensures
        decimal(n).len() > 0,
        all_digits(decimal(n)),
        digits_value(decimal(n)) == n,
        decimal_value(decimal(n)) == Some(n),
    decreases n,
{
    if n < 10 {
        lemma_digit_char(n as int);
        assert(decimal(n) == seq![digit_char(n as int)]);
        assert(decimal(n).drop_last() =~= Seq::<char>::empty());
        assert(digits_value(decimal(n).drop_last()) == 0);
    } else {
        lemma_decimal_value(n / 10);
        lemma_digit_char((n % 10) as int);
        let d = decimal(n);
        assert(d == decimal(n / 10).push(digit_char((n % 10) as int)));
        assert(d.drop_last() =~= decimal(n / 10));
        assert(d.last() == digit_char((n % 10) as int));
        assert(digits_value(d) == digits_value(d.drop_last()) * 10 + (d.last() as int - '0' as int) as nat);
        assert((n / 10) * 10 + n % 10 == n);
        assert forall|i: int| 0 <= i < d.len() implies is_digit(#[trigger] d[i]) by {
            if i < d.len() - 1 {
                assert(d[i] == decimal(n / 10)[i]);
            }
        }
    }
    assert(is_digit(decimal(n)[0]));
    assert(unsigned_body(decimal(n)) == decimal(n));
}

/// `parse_u64` reads the decimal notation of any `u64` back.
pub proof fn lemma_parse_decimal(v: u64)
    ensures
        parse_u64(decimal(v as nat)) == Some(v),
{
    lemma_decimal_value(v as nat);
}

// ---------------------------------------------------------------- floating-point literals

/// `t` without one leading sign.
pub open spec fn unsigned_float(t: Seq<char>) -> Seq<char> {
    if t.len() > 0 && (t[0] == '+' || t[0] == '-') {
        t.drop_first()
    } else {
        t
    }
}

/// `c` is `l` or its ASCII upper-case form.
pub open spec fn same_letter(c: char, l: char) -> bool {
    c == l || ('A' <= c && c <= 'Z' && c as u32 + 32 == l as u32)
}

/// `u` spells the lower-case word `w`, ignoring ASCII case.
pub open spec fn spells(u: Seq<char>, w: Seq<char>) -> bool {
    u.len() == w.len() && forall|i: int| 0 <= i < u.len() ==> same_letter(#[trigger] u[i], w[i])
}

/// The position of the first exponent marker (`e` or `E`) at or after `i`,
/// or the length of `t`.
pub open spec fn exponent_marker(t: Seq<char>, i: int) -> int
    decreases t.len() - i,
{
    if i < 0 || i >= t.len() || t[i] == 'e' || t[i] == 'E' {
        i
    } else {
        exponent_marker(t, i + 1)
    }
}

/// Digits with at most one decimal point, and at least one digit.
pub open spec fn is_mantissa(m: Seq<char>) -> bool {
    match find(m, seq!['.']) {
        Some(p) => all_digits(m.subrange(0, p)) && all_digits(m.subrange(p + 1, m.len() as int))
            && m.len() > 1,
        None => m.len() > 0 && all_digits(m),
    }
}

/// A signed digit string.
pub open spec fn is_exponent(x: Seq<char>) -> bool {
    unsigned_float(x).len() > 0 && all_digits(unsigned_float(x))
}

/// A decimal number without sign: a mantissa, then optionally `e` or `E`
/// and an exponent.
pub open spec fn is_decimal_number(u: Seq<char>) -> bool {
    let e = exponent_marker(u, 0);
    is_mantissa(u.subrange(0, e)) && (e == u.len() || is_exponent(u.subrange(e + 1, u.len() as int)))
}

/// The strings that `t.parse::<f64>()` accepts: an optional sign, then
/// `inf`, `infinity` or `nan` in any ASCII case, or a decimal number.
pub open spec fn is_float_literal(t: Seq<char>) -> bool {
    let u = unsigned_float(t);
    spells(u, seq!['i', 'n', 'f']) || spells(u, seq!['i', 'n', 'f', 'i', 'n', 'i', 't', 'y'])
        || spells(u, seq!['n', 'a', 'n']) || is_decimal_number(u)
}


/// Whether `u` spells the lower-case word `w`, ignoring ASCII case.
pub fn spells_word(u: &[char], w: &[char]) -> (b: bool)
    ensures
        b == spells(u@, w@),
{
    if u.len() != w.len() {
        return false;
    }
    let mut i: usize = 0;
    while i < u.len()
        invariant
            u@.len() == w@.len(),
            i <= u@.len(),
            forall|j: int| 0 <= j < i ==> same_letter(#[trigger] u@[j], w@[j]),
        decreases u@.len() - i,
    {
        let c = u[i];
        let l = w[i];
        if !(c == l || ('A' <= c && c <= 'Z' && (c as u32) + 32 == (l as u32))) {
            assert(!same_letter(u@[i as int], w@[i as int]));
            return false;
        }
        i = i + 1;
    }
    true
}

/// Whether `m` is a mantissa: digits with at most one decimal point, and
/// at least one digit.
pub fn mantissa_ok(m: &[char]) -> (b: bool)
    ensures
        b == is_mantissa(m@),
{
    let dot = vec!['.'];
    assert(dot@ =~= seq!['.']);
    let n = m.len();
    match find_chars(m, dot.as_slice()) {
        Some(p) => {
            let whole = vstd::slice::slice_subrange(m, 0, p);
            let frac = vstd::slice::slice_subrange(m, p + 1, n);
            all_digits_in(whole) && all_digits_in(frac) && m.len() > 1
        },
        None => m.len() > 0 && all_digits_in(m),
    }
}

/// Whether `t.parse::<f64>()` accepts `s`.
pub fn float_literal(s: &[char]) -> (b: bool)
    ensures
        b == is_float_literal(s@),
{
    let u = if s.len() > 0 && (s[0] == '+' || s[0] == '-') {
        vstd::slice::slice_subrange(s, 1, s.len())
    } else {
        s
    };
    assert(u@ =~= unsigned_float(s@));
    let inf = vec!['i', 'n', 'f'];
    let infinity = vec!['i', 'n', 'f', 'i', 'n', 'i', 't', 'y'];
    let nan = vec!['n', 'a', 'n'];
    assert(inf@ =~= seq!['i', 'n', 'f']);
    assert(infinity@ =~= seq!['i', 'n', 'f', 'i', 'n', 'i', 't', 'y']);
    assert(nan@ =~= seq!['n', 'a', 'n']);
    if spells_word(u, inf.as_slice()) || spells_word(u, infinity.as_slice()) || spells_word(
        u,
        nan.as_slice(),
    ) {
        return true;
    }
    let n = u.len();
    let mut e: usize = 0;
    while e < n && u[e] != 'e' && u[e] != 'E'
        invariant
            n == u@.len(),
            e <= n,
            exponent_marker(u@, 0) == exponent_marker(u@, e as int),
        decreases n - e,
    {
        e = e + 1;
    }
    if !mantissa_ok(vstd::slice::slice_subrange(u, 0, e)) {
        return false;
    }
    if e == n {
        return true;
    }
    let x = vstd::slice::slice_subrange(u, e + 1, n);
    let digits = if x.len() > 0 && (x[0] == '+' || x[0] == '-') {
        vstd::slice::slice_subrange(x, 1, x.len())
    } else {
        x
    };
    assert(digits@ =~= unsigned_float(x@));
    digits.len() > 0 && all_digits_in(digits)
}

} // verus!
