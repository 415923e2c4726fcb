//! Pressure stall information from `/proc/pressure/{cpu,memory,io}`.
//!
//! The averages are decimal fractions: the reader checks that each is a
//! valid floating-point literal and hands over its text, which the
//! exporter converts to a number.

use vstd::prelude::*;
use crate::numbers::{float_literal, is_float_literal};
use crate::text::{chars_of, find, find_chars, has_prefix, lines, split_lines, starts_with, string_of};

verus! {

/// The averages of one pressure line, as the file writes them.
#[derive(Debug)]
pub struct PsiText {
    pub avg10: String,
    pub avg60: String,
    pub avg300: String,
}

/// The averages of a pressure line.
#[derive(Clone, Copy, Debug, PartialEq, Eq)]
pub enum PsiKey {
    Avg10,
    Avg60,
    Avg300,
}

/// Why a pressure file yields no averages. The readers pair it with the
/// offending text: what follows `key=` for `Invalid`, empty otherwise.
#[derive(Clone, Copy, Debug, PartialEq, Eq)]
pub enum PressureError {
    /// No line begins with the prefix asked for.
    MissingLine,
    /// The line has no `key=`.
    MissingKey(PsiKey),
    /// What follows `key=` is no floating-point literal.
    Invalid(PsiKey),
}

/// The text of `key` on a line: `avg10=`, `avg60=` or `avg300=`.
pub open spec fn key_text(k: PsiKey) -> Seq<char> {
    match k {
        PsiKey::Avg10 => "avg10="@,
        PsiKey::Avg60 => "avg60="@,
        PsiKey::Avg300 => "avg300="@,
    }
}

/// The first of `ls` from `i` on that begins with `prefix`.
pub open spec fn first_with_prefix(ls: Seq<Seq<char>>, prefix: Seq<char>, i: int) -> Option<int>
    decreases ls.len() - i,
{
    if i < 0 || i >= ls.len() {
        None
    } else if has_prefix(ls[i], prefix) {
        Some(i)
    } else {
        first_with_prefix(ls, prefix, i + 1)
    }
}

proof fn lemma_first_from(ls: Seq<Seq<char>>, prefix: Seq<char>, i: int)
    requires
        0 <= i,
    ensures
        first_with_prefix(ls, prefix, i) matches Some(k) ==> i <= k < ls.len() && has_prefix(
            ls[k],
            prefix,
        ) && forall|j: int| i <= j < k ==> !has_prefix(#[trigger] ls[j], prefix),
        first_with_prefix(ls, prefix, i) is None ==> forall|j: int|
            i <= j < ls.len() ==> !has_prefix(#[trigger] ls[j], prefix),
    decreases ls.len() - i,
{
    if i < ls.len() && !has_prefix(ls[i], prefix) {
        lemma_first_from(ls, prefix, i + 1);
    }
}

/// The line read is the first that begins with the prefix: no earlier
/// line begins with it, and where none at all does, the line is missing.
pub proof fn lemma_first_with_prefix(ls: Seq<Seq<char>>, prefix: Seq<char>)
    ensures
        first_with_prefix(ls, prefix, 0) matches Some(k) ==> 0 <= k < ls.len() && has_prefix(
            ls[k],
            prefix,
        ) && forall|j: int| 0 <= j < k ==> !has_prefix(#[trigger] ls[j], prefix),
        first_with_prefix(ls, prefix, 0) is None ==> forall|j: int|
            0 <= j < ls.len() ==> !has_prefix(#[trigger] ls[j], prefix),
{
    lemma_first_from(ls, prefix, 0);
}

/// A failure: what went wrong, and the offending text.
pub type Failure = (PressureError, Seq<char>);

/// The value of `key` on `line`: what follows the first `key=` up to the
/// next space (or the end of the line), which must be a floating-point
/// literal.
pub open spec fn psi_value(line: Seq<char>, k: PsiKey) -> Result<Seq<char>, Failure> {
    match find(line, key_text(k)) {
        None => Err((PressureError::MissingKey(k), seq![])),
        Some(i) => {
            let rest = line.subrange(i + key_text(k).len(), line.len() as int);
            let end = match find(rest, seq![' ']) {
                Some(e) => e,
                None => rest.len() as int,
            };
            let text = rest.subrange(0, end);
            if is_float_literal(text) {
                Ok(text)
            } else {
                Err((PressureError::Invalid(k), text))
            }
        },
    }
}

/// What a pressure file holding `content` says on its first line that
/// begins with `prefix` (`some` or `full`): the three averages, checked in
/// the order avg10, avg60, avg300.
pub open spec fn psi_line(content: Seq<char>, prefix: Seq<char>) -> Result<
    (Seq<char>, Seq<char>, Seq<char>),
    Failure,
> {
    let ls = lines(content);
    match first_with_prefix(ls, prefix, 0) {
        None => Err((PressureError::MissingLine, seq![])),
        Some(i) => match psi_value(ls[i], PsiKey::Avg10) {
            Err(e) => Err(e),
            Ok(a) => match psi_value(ls[i], PsiKey::Avg60) {
                Err(e) => Err(e),
                Ok(b) => match psi_value(ls[i], PsiKey::Avg300) {
                    Err(e) => Err(e),
                    Ok(c) => Ok((a, b, c)),
                },
            },
        },
    }
}

/// `e` is the failure `f`.
pub open spec fn same_failure(e: (PressureError, String), f: Failure) -> bool {
    e.0 == f.0 && e.1@ == f.1
}

pub open spec fn same_psi(
    r: Result<PsiText, (PressureError, String)>,
    s: Result<(Seq<char>, Seq<char>, Seq<char>), Failure>,
) -> bool {
    match (r, s) {
        (Ok(p), Ok(t)) => p.avg10@ == t.0 && p.avg60@ == t.1 && p.avg300@ == t.2,
        (Err(e), Err(f)) => same_failure(e, f),
        _ => false,
    }
}

fn extract(line: &[char], k: PsiKey) -> (res: Result<String, (PressureError, String)>)
    ensures
        match (res, psi_value(line@, k)) {
            (Ok(t), Ok(u)) => t@ == u,
            (Err(e), Err(f)) => same_failure(e, f),
            _ => false,
        },
{
    let key = match k {
        PsiKey::Avg10 => chars_of("avg10="),
        PsiKey::Avg60 => chars_of("avg60="),
        PsiKey::Avg300 => chars_of("avg300="),
    };
    let n = line.len();
    let i = match find_chars(line, key.as_slice()) {
        Some(i) => i,
        None => return Err((PressureError::MissingKey(k), String::new())),
    };
    let rest = vstd::slice::slice_subrange(line, i + key.len(), n);
    let space = vec![' '];
    assert(space@ =~= seq![' ']);
    let end = match find_chars(rest, space.as_slice()) {
        Some(e) => e,
        None => rest.len(),
    };
    let text = vstd::slice::slice_subrange(rest, 0, end);
    if float_literal(text) {
        Ok(string_of(text))
    } else {
        Err((PressureError::Invalid(k), string_of(text)))
    }
}

/// Reads the line of a pressure file that begins with `prefix` (`some avg10=0.00
/// avg60=0.00 avg300=0.00 total=0`): the texts of its three averages.
pub fn parse_line(content: &str, prefix: &str) -> (res: Result<PsiText, (PressureError, String)>)
    ensures
        same_psi(res, psi_line(content@, prefix@)),
{
    let chars = chars_of(content);
    let p = chars_of(prefix);
    let ls = split_lines(chars.as_slice());
    let ghost l = lines(content@);
    let mut i: usize = 0;
    while i < ls.len() && !starts_with(ls[i], p.as_slice())
        invariant
            ls@.len() == l.len(),
            l == lines(content@),
            forall|j: int| 0 <= j < l.len() ==> (#[trigger] ls@[j])@ == l[j],
            p@ == prefix@,
            i <= l.len(),
            first_with_prefix(l, prefix@, 0) == first_with_prefix(l, prefix@, i as int),
        decreases l.len() - i,
    {
        i = i + 1;
    }
    if i == ls.len() {
        return Err((PressureError::MissingLine, String::new()));
    }
    let line = ls[i];
    let avg10 = match extract(line, PsiKey::Avg10) {
        Ok(t) => t,
        Err(e) => return Err(e),
    };
    let avg60 = match extract(line, PsiKey::Avg60) {
        Ok(t) => t,
        Err(e) => return Err(e),
    };
    let avg300 = match extract(line, PsiKey::Avg300) {
        Ok(t) => t,
        Err(e) => return Err(e),
    };
    Ok(PsiText { avg10, avg60, avg300 })
}

/// The pressure lines that the exporter reports.
#[derive(Clone, Copy, Debug, PartialEq, Eq)]
pub enum PsiLine {
    CpuSome,
    MemorySome,
    MemoryFull,
    IoSome,
    IoFull,
}

/// The averages of the five pressure lines.
#[derive(Debug)]
pub struct PressureText {
    pub cpu_some: PsiText,
    pub memory_some: PsiText,
    pub memory_full: PsiText,
    pub io_some: PsiText,
    pub io_full: PsiText,
}

/// `r` failed, with the failure `e`.
pub open spec fn fails_with(r: Result<(Seq<char>, Seq<char>, Seq<char>), Failure>, e: (PressureError, String)) -> bool {
    r matches Err(f) && same_failure(e, f)
}

/// Reads the three pressure files: `some` of cpu, `some` and `full` of
/// memory and of io, in that order; the first line that fails is the
/// error, with the reason and the offending text.
pub fn read_pressure(cpu: &str, memory: &str, io: &str) -> (res: Result<
    PressureText,
    (PsiLine, (PressureError, String)),
>)
    ensures
        res matches Ok(p) ==> {
            &&& same_psi(Ok(p.cpu_some), psi_line(cpu@, "some"@))
            &&& same_psi(Ok(p.memory_some), psi_line(memory@, "some"@))
            &&& same_psi(Ok(p.memory_full), psi_line(memory@, "full"@))
            &&& same_psi(Ok(p.io_some), psi_line(io@, "some"@))
            &&& same_psi(Ok(p.io_full), psi_line(io@, "full"@))
        },
        res matches Err((which, e)) ==> match which {
            PsiLine::CpuSome => fails_with(psi_line(cpu@, "some"@), e),
            PsiLine::MemorySome => psi_line(cpu@, "some"@) is Ok && fails_with(psi_line(memory@, "some"@), e),
            PsiLine::MemoryFull => psi_line(cpu@, "some"@) is Ok && psi_line(memory@, "some"@) is Ok
                && fails_with(psi_line(memory@, "full"@), e),
            PsiLine::IoSome => psi_line(cpu@, "some"@) is Ok && psi_line(memory@, "some"@) is Ok
                && psi_line(memory@, "full"@) is Ok && fails_with(psi_line(io@, "some"@), e),
            PsiLine::IoFull => psi_line(cpu@, "some"@) is Ok && psi_line(memory@, "some"@) is Ok
                && psi_line(memory@, "full"@) is Ok && psi_line(io@, "some"@) is Ok && fails_with(psi_line(io@, "full"@), e),
        },
{
    let cpu_some = match parse_line(cpu, "some") {
        Ok(p) => p,
        Err(e) => return Err((PsiLine::CpuSome, e)),
    };
    let memory_some = match parse_line(memory, "some") {
        Ok(p) => p,
        Err(e) => return Err((PsiLine::MemorySome, e)),
    };
    let memory_full = match parse_line(memory, "full") {
        Ok(p) => p,
        Err(e) => return Err((PsiLine::MemoryFull, e)),
    };
    let io_some = match parse_line(io, "some") {
        Ok(p) => p,
        Err(e) => return Err((PsiLine::IoSome, e)),
    };
    let io_full = match parse_line(io, "full") {
        Ok(p) => p,
        Err(e) => return Err((PsiLine::IoFull, e)),
    };
    Ok(PressureText { cpu_some, memory_some, memory_full, io_some, io_full })
}

} // verus!
