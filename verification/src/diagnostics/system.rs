//! Uptime, load and file handles from `/proc/uptime`, `/proc/loadavg` and
//! `/proc/sys/fs/file-nr`.
//!
//! Uptime and load averages are decimal fractions; the readers here check
//! that such a field is a valid floating-point literal and hand over its
//! text, which the exporter converts to a number.

use vstd::prelude::*;
use crate::numbers::{float_literal, is_float_literal, parse_u32, parse_u64, read_u32, read_u64};
use crate::text::{chars_of, find, find_chars, split_words, string_of, words};

verus! {

/// The fields of these files.
#[derive(Clone, Copy, Debug, PartialEq, Eq)]
pub enum SystemField {
    Uptime,
    Load1,
    Load5,
    Load15,
    /// `running/total` in `/proc/loadavg`.
    Procs,
    Running,
    Total,
    OpenFds,
    MaxFds,
}

/// Why one of these files cannot be read. The readers pair it with the
/// text of the offending field (empty where the field is missing).
#[derive(Clone, Copy, Debug, PartialEq, Eq)]
pub enum SystemError {
    /// The file ends before the field.
    Missing(SystemField),
    /// The field is not a number of its kind.
    Invalid(SystemField),
}

/// The `i`-th whitespace-separated field of `content`, if there is one.
pub open spec fn field(content: Seq<char>, i: int) -> Option<Seq<char>> {
    if 0 <= i < words(content).len() {
        Some(words(content)[i])
    } else {
        None
    }
}

/// A failure: what went wrong, and the text of the offending field.
pub type Failure = (SystemError, Seq<char>);

/// A field that is missing.
pub open spec fn missing(f: SystemField) -> Failure {
    (SystemError::Missing(f), seq![])
}

/// A field that must be a floating-point literal.
pub open spec fn float_field(content: Seq<char>, i: int, f: SystemField) -> Result<Seq<char>, Failure> {
    match field(content, i) {
        None => Err(missing(f)),
        Some(w) => if is_float_literal(w) {
            Ok(w)
        } else {
            Err((SystemError::Invalid(f), w))
        },
    }
}

/// What `/proc/uptime` holding `content` reads as: the text of its first
/// field, which must be a floating-point literal.
pub open spec fn uptime(content: Seq<char>) -> Result<Seq<char>, Failure> {
    float_field(content, 0, SystemField::Uptime)
}

/// `e` is the failure `f`.
pub open spec fn same_failure(e: (SystemError, String), f: Failure) -> bool {
    e.0 == f.0 && e.1@ == f.1
}

pub open spec fn same_text(r: Result<String, (SystemError, String)>, s: Result<Seq<char>, Failure>) -> bool {
    match (r, s) {
        (Ok(t), Ok(u)) => t@ == u,
        (Err(e), Err(f)) => same_failure(e, f),
        _ => false,
    }
}

fn fail(e: SystemError, text: &[char]) -> (res: (SystemError, String))
    ensures
        res.0 == e,
        res.1@ == text@,
{
    (e, string_of(text))
}

fn fail_missing(f: SystemField) -> (res: (SystemError, String))
    ensures
        same_failure(res, missing(f)),
{
    (SystemError::Missing(f), String::new())
}

/// The text of field `i` of `w`, checked to be a floating-point literal.
fn float_text(w: &Vec<&[char]>, i: usize, f: SystemField, Ghost(content): Ghost<Seq<char>>) -> (res:
    Result<String, (SystemError, String)>)
    requires
        w@.len() == words(content).len(),
        forall|j: int| 0 <= j < w@.len() ==> (#[trigger] w@[j])@ == words(content)[j],
    ensures
        same_text(res, float_field(content, i as int, f)),
{
    if i >= w.len() {
        return Err(fail_missing(f));
    }
    if !float_literal(w[i]) {
        return Err(fail(SystemError::Invalid(f), w[i]));
    }
    Ok(string_of(w[i]))
}

/// Reads `/proc/uptime`: the text of the uptime in seconds, its first
/// field. No field is `Missing(Uptime)`; one that is no floating-point
/// literal is `Invalid(Uptime)`.
pub fn parse_uptime(content: &str) -> (res: Result<String, (SystemError, String)>)
    ensures
        same_text(res, uptime(content@)),
{
    let s = chars_of(content);
    let w = split_words(s.as_slice());
    float_text(&w, 0, SystemField::Uptime, Ghost(content@))
}

/// `running/total`: the two numbers around the first `'/'`.
pub open spec fn procs(w: Seq<char>) -> Result<(u32, u32), Failure> {
    match find(w, seq!['/']) {
        None => Err((SystemError::Invalid(SystemField::Procs), w)),
        Some(p) => match parse_u32(w.subrange(0, p)) {
            None => Err((SystemError::Invalid(SystemField::Running), w.subrange(0, p))),
            Some(running) => match parse_u32(w.subrange(p + 1, w.len() as int)) {
                None => Err(
                    (SystemError::Invalid(SystemField::Total), w.subrange(p + 1, w.len() as int)),
                ),
                Some(total) => Ok((running, total)),
            },
        },
    }
}

/// What `/proc/loadavg` holding `content` reads as: the texts of the 1, 5
/// and 15 minute load averages (floating-point literals) and the running
/// and total process counts of the fourth field, `running/total`. Fields
/// are checked in that order; the first that is missing or invalid is the
/// error.
pub open spec fn loadavg(content: Seq<char>) -> Result<
    (Seq<char>, Seq<char>, Seq<char>, u32, u32),
    Failure,
> {
    match float_field(content, 0, SystemField::Load1) {
        Err(e) => Err(e),
        Ok(l1) => match float_field(content, 1, SystemField::Load5) {
            Err(e) => Err(e),
            Ok(l5) => match float_field(content, 2, SystemField::Load15) {
                Err(e) => Err(e),
                Ok(l15) => match field(content, 3) {
                    None => Err(missing(SystemField::Procs)),
                    Some(p) => match procs(p) {
                        Err(e) => Err(e),
                        Ok((running, total)) => Ok((l1, l5, l15, running, total)),
                    },
                },
            },
        },
    }
}

pub open spec fn same_loadavg(
    r: Result<(String, String, String, u32, u32), (SystemError, String)>,
    s: Result<(Seq<char>, Seq<char>, Seq<char>, u32, u32), Failure>,
) -> bool {
    match (r, s) {
        (Ok(a), Ok(b)) => a.0@ == b.0 && a.1@ == b.1 && a.2@ == b.2 && a.3 == b.3 && a.4 == b.4,
        (Err(e), Err(f)) => same_failure(e, f),
        _ => false,
    }
}

/// Reads `/proc/loadavg` (`1.38 1.04 1.07 2/847 12345`).
pub fn parse_loadavg(content: &str) -> (res: Result<
    (String, String, String, u32, u32),
    (SystemError, String),
>)
    ensures
        same_loadavg(res, loadavg(content@)),
{
    let s = chars_of(content);
    let w = split_words(s.as_slice());
    let load1 = match float_text(&w, 0, SystemField::Load1, Ghost(content@)) {
        Ok(t) => t,
        Err(e) => return Err(e),
    };
    let load5 = match float_text(&w, 1, SystemField::Load5, Ghost(content@)) {
        Ok(t) => t,
        Err(e) => return Err(e),
    };
    let load15 = match float_text(&w, 2, SystemField::Load15, Ghost(content@)) {
        Ok(t) => t,
        Err(e) => return Err(e),
    };
    if w.len() < 4 {
        return Err(fail_missing(SystemField::Procs));
    }
    let p = w[3];
    let slash = vec!['/'];
    assert(slash@ =~= seq!['/']);
    let cut = match find_chars(p, slash.as_slice()) {
        Some(c) => c,
        None => return Err(fail(SystemError::Invalid(SystemField::Procs), p)),
    };
    let n = p.len();
    let before = vstd::slice::slice_subrange(p, 0, cut);
    let after = vstd::slice::slice_subrange(p, cut + 1, n);
    let running = match read_u32(before) {
        Some(r) => r,
        None => return Err(fail(SystemError::Invalid(SystemField::Running), before)),
    };
    let total = match read_u32(after) {
        Some(t) => t,
        None => return Err(fail(SystemError::Invalid(SystemField::Total), after)),
    };
    Ok((load1, load5, load15, running, total))
}

/// A field that must be a `u64`.
pub open spec fn u64_field(content: Seq<char>, i: int, f: SystemField) -> Result<u64, Failure> {
    match field(content, i) {
        None => Err(missing(f)),
        Some(w) => match parse_u64(w) {
            None => Err((SystemError::Invalid(f), w)),
            Some(v) => Ok(v),
        },
    }
}

/// What `/proc/sys/fs/file-nr` holding `content` reads as: the allocated
/// file handles (first field) and the maximum (third field; the second is
/// skipped).
pub open spec fn file_nr(content: Seq<char>) -> Result<(u64, u64), Failure> {
    match u64_field(content, 0, SystemField::OpenFds) {
        Err(e) => Err(e),
        Ok(open) => match u64_field(content, 2, SystemField::MaxFds) {
            Err(e) => Err(e),
            Ok(max) => Ok((open, max)),
        },
    }
}

pub open spec fn same_file_nr(r: Result<(u64, u64), (SystemError, String)>, s: Result<(u64, u64), Failure>) -> bool {
    match (r, s) {
        (Ok(a), Ok(b)) => a == b,
        (Err(e), Err(f)) => same_failure(e, f),
        _ => false,
    }
}

/// Reads `/proc/sys/fs/file-nr` (`11686	0	9223372036854775807`).
pub fn parse_file_nr(content: &str) -> (res: Result<(u64, u64), (SystemError, String)>)
    ensures
        same_file_nr(res, file_nr(content@)),
{
    let s = chars_of(content);
    let w = split_words(s.as_slice());
    if w.len() < 1 {
        return Err(fail_missing(SystemField::OpenFds));
    }
    let open = match read_u64(w[0]) {
        Some(v) => v,
        None => return Err(fail(SystemError::Invalid(SystemField::OpenFds), w[0])),
    };
    if w.len() < 3 {
        return Err(fail_missing(SystemField::MaxFds));
    }
    let max = match read_u64(w[2]) {
        Some(v) => v,
        None => return Err(fail(SystemError::Invalid(SystemField::MaxFds), w[2])),
    };
    Ok((open, max))
}

} // verus!
