//! CPU time from `/proc/stat`: reading the counters of the aggregate and
//! per-core `cpu` lines, and the ticks that elapsed between two readings.

use vstd::prelude::*;
use crate::numbers::{is_digit, u64_or_zero, read_u64_or_zero};
use crate::text::{chars_of, has_prefix, lines, words, split_lines, split_words, starts_with};

verus! {

/// The counters of one `cpu` line of `/proc/stat`, in clock ticks.
#[derive(Clone, Copy, Debug, PartialEq, Eq)]
pub struct StatSnapshot {
    /// `user` and `nice` together.
    pub user: u64,
    pub system: u64,
    pub idle: u64,
    pub iowait: u64,
    /// The sum of every counter on the line.
    pub total: u64,
}

/// One reading of `/proc/stat`: the aggregate line and the per-core lines
/// that follow it.
#[derive(Debug)]
pub struct FullSnapshot {
    pub agg: StatSnapshot,
    pub cores: Vec<StatSnapshot>,
}

/// Why `/proc/stat` yields no reading.
#[derive(Clone, Copy, Debug, PartialEq, Eq)]
pub enum StatError {
    /// The file has no line at all.
    Empty,
}

// ---------------------------------------------------------------- one line

/// The counters of a `cpu` line: every whitespace-separated field after the
/// label, read as a `u64`, with 0 for a field that is not one.
pub open spec fn stat_values(line: Seq<char>) -> Seq<u64> {
    let w = words(line);
    let fields = if w.len() == 0 {
        w
    } else {
        w.drop_first()
    };
    fields.map_values(|f: Seq<char>| u64_or_zero(f))
}

pub open spec fn value_at(v: Seq<u64>, i: int) -> u64 {
    if 0 <= i < v.len() {
        v[i]
    } else {
        0
    }
}

pub open spec fn sum(v: Seq<u64>) -> nat
    decreases v.len(),
{
    if v.len() == 0 {
        0
    } else {
        sum(v.drop_last()) + v.last() as nat
    }
}

/// The counters of the line add up to a `u64`.
pub open spec fn stat_line_fits(line: Seq<char>) -> bool {
    sum(stat_values(line)) <= u64::MAX
}

/// What a `cpu` line reads as: `user` is user plus nice (the first two
/// counters), then system, idle and iowait; absent counters count 0; the
/// total is the sum of all counters on the line.
pub open spec fn stat_snapshot(line: Seq<char>) -> StatSnapshot {
    let v = stat_values(line);
    StatSnapshot {
        user: (value_at(v, 0) + value_at(v, 1)) as u64,
        system: value_at(v, 2),
        idle: value_at(v, 3),
        iowait: value_at(v, 4),
        total: sum(v) as u64,
    }
}

pub proof fn lemma_sum_prefix(v: Seq<u64>, k: int)
    requires
        0 <= k <= v.len(),
    ensures
        sum(v.subrange(0, k)) <= sum(v),
    decreases v.len(),
{
    if k < v.len() {
        lemma_sum_prefix(v.drop_last(), k);
        assert(v.drop_last().subrange(0, k) =~= v.subrange(0, k));
    } else {
        assert(v.subrange(0, k) =~= v);
    }
}

pub proof fn lemma_sum_members(v: Seq<u64>)
    ensures
        value_at(v, 0) + value_at(v, 1) <= sum(v),
    decreases v.len(),
{
    if v.len() > 2 {
        lemma_sum_members(v.drop_last());
        assert(value_at(v.drop_last(), 0) == value_at(v, 0));
        assert(value_at(v.drop_last(), 1) == value_at(v, 1));
    } else if v.len() == 2 {
        assert(v.drop_last().drop_last() =~= Seq::<u64>::empty());
        assert(sum(v.drop_last()) == sum(v.drop_last().drop_last()) + v[0]);
    } else if v.len() == 1 {
        assert(v.drop_last() =~= Seq::<u64>::empty());
    }
}

/// The named counters of a line never add up to more than its total.
pub proof fn lemma_counters_within_total(line: Seq<char>)
    requires
        stat_line_fits(line),
    ensures
        stat_snapshot(line).user + stat_snapshot(line).system + stat_snapshot(line).idle
            + stat_snapshot(line).iowait <= stat_snapshot(line).total,
{
    let v = stat_values(line);
    let k = if v.len() < 5 {
        v.len() as int
    } else {
        5
    };
    lemma_sum_prefix(v, k);
    let h = v.subrange(0, k);
    reveal_with_fuel(sum, 6);
    if k == 5 {
        assert(h.drop_last().drop_last().drop_last().drop_last().drop_last() =~= Seq::<u64>::empty());
    } else if k == 4 {
        assert(h.drop_last().drop_last().drop_last().drop_last() =~= Seq::<u64>::empty());
    } else if k == 3 {
        assert(h.drop_last().drop_last().drop_last() =~= Seq::<u64>::empty());
    } else if k == 2 {
        assert(h.drop_last().drop_last() =~= Seq::<u64>::empty());
    } else if k == 1 {
        assert(h.drop_last() =~= Seq::<u64>::empty());
    }
    assert(value_at(v, 0) + value_at(v, 1) + value_at(v, 2) + value_at(v, 3) + value_at(v, 4)
        == sum(h));
}

pub proof fn lemma_sum_concat(a: Seq<u64>, b: Seq<u64>)
    ensures
        sum(a + b) == sum(a) + sum(b),
    decreases b.len(),
{
    if b.len() == 0 {
        assert(a + b =~= a);
    } else {
        lemma_sum_concat(a, b.drop_last());
        assert((a + b).drop_last() =~= a + b.drop_last());
        assert((a + b).last() == b.last());
    }
}

/// The counters of a line after the first five: irq, softirq, steal,
/// guest and whatever else the kernel lists.
pub open spec fn later_counters(line: Seq<char>) -> Seq<u64> {
    let v = stat_values(line);
    if v.len() <= 5 {
        seq![]
    } else {
        v.subrange(5, v.len() as int)
    }
}

/// Every field after the `cpu` label is a counter, and the total of a line
/// counts all of them: user and nice, system, idle and iowait, and every
/// later counter (irq, softirq, steal, guest, ...).
pub proof fn lemma_total_counts_every_counter(line: Seq<char>)
    requires
        stat_line_fits(line),
    ensures
        words(line).len() > 0 ==> stat_values(line).len() == words(line).len() - 1,
        forall|j: int|
            0 <= j < stat_values(line).len() ==> #[trigger] stat_values(line)[j] == u64_or_zero(
                words(line)[j + 1],
            ),
        stat_snapshot(line).total == stat_snapshot(line).user + stat_snapshot(line).system
            + stat_snapshot(line).idle + stat_snapshot(line).iowait + sum(later_counters(line)),
{
    let v = stat_values(line);
    let k = if v.len() < 5 {
        v.len() as int
    } else {
        5
    };
    let h = v.subrange(0, k);
    reveal_with_fuel(sum, 6);
    if k == 5 {
        assert(h.drop_last().drop_last().drop_last().drop_last().drop_last() =~= Seq::<u64>::empty());
    } else if k == 4 {
        assert(h.drop_last().drop_last().drop_last().drop_last() =~= Seq::<u64>::empty());
    } else if k == 3 {
        assert(h.drop_last().drop_last().drop_last() =~= Seq::<u64>::empty());
    } else if k == 2 {
        assert(h.drop_last().drop_last() =~= Seq::<u64>::empty());
    } else if k == 1 {
        assert(h.drop_last() =~= Seq::<u64>::empty());
    }
    assert(value_at(v, 0) + value_at(v, 1) + value_at(v, 2) + value_at(v, 3) + value_at(v, 4)
        == sum(h));
    lemma_sum_concat(h, later_counters(line));
    assert(h + later_counters(line) =~= v);
    lemma_sum_members(v);
}

/// The reading of a `cpu` line, or `None` where its counters do not add up
/// to a `u64`.
fn checked_stat_line(s: &[char]) -> (res: Option<StatSnapshot>)
    ensures
        res is Some <==> stat_line_fits(s@),
        res matches Some(r) ==> r == stat_snapshot(s@),
{
    let w = split_words(s);
    let ghost v = stat_values(s@);
    let mut vals: Vec<u64> = Vec::new();
    let mut total: u64 = 0;
    let mut k: usize = 1;
    let n = w.len();
    if n == 0 {
        assert(v =~= Seq::<u64>::empty());
        return Some(StatSnapshot { user: 0, system: 0, idle: 0, iowait: 0, total: 0 });
    }
    while k < n
        invariant
            n == w@.len() == words(s@).len(),
            forall|j: int| 0 <= j < n ==> (#[trigger] w@[j])@ == words(s@)[j],
            v == stat_values(s@),
            v.len() == n - 1,
            1 <= k <= n,
            vals@ == v.subrange(0, k - 1),
            total == sum(vals@),
        decreases n - k,
    {
        let x = read_u64_or_zero(w[k]);
        assert(v[k - 1] == x);
        let ghost before = vals@;
        vals.push(x);
        assert(vals@ =~= v.subrange(0, k as int));
        assert(vals@.drop_last() =~= before);
        match total.checked_add(x) {
            Some(t) => {
                total = t;
            },
            None => {
                proof {
                    lemma_sum_prefix(v, k as int);
                }
                return None;
            },
        }
        k = k + 1;
    }
    assert(vals@ =~= v);
    proof {
        lemma_sum_members(v);
    }
    let user = if vals.len() > 0 {
        vals[0]
    } else {
        0
    };
    let nice = if vals.len() > 1 {
        vals[1]
    } else {
        0
    };
    let system = if vals.len() > 2 {
        vals[2]
    } else {
        0
    };
    let idle = if vals.len() > 3 {
        vals[3]
    } else {
        0
    };
    let iowait = if vals.len() > 4 {
        vals[4]
    } else {
        0
    };
    Some(StatSnapshot { user: user + nice, system, idle, iowait, total })
}

/// Whether the counters of `line` add up to a `u64`, as
/// [`parse_stat_line`] needs.
pub fn stat_line_fits_u64(line: &str) -> (b: bool)
    ensures
        b == stat_line_fits(line@),
{
    let s = chars_of(line);
    checked_stat_line(s.as_slice()).is_some()
}

/// Reads one `cpu` line of `/proc/stat` (`cpu  user nice system idle iowait
/// irq softirq steal ...`).
pub fn parse_stat_line(line: &str) -> (res: StatSnapshot)
    requires
        stat_line_fits(line@),
    ensures
        res == stat_snapshot(line@),
{
    let s = chars_of(line);
    match checked_stat_line(s.as_slice()) {
        Some(r) => r,
        None => vstd::pervasive::unreached(),
    }
}


// ---------------------------------------------------------------- the whole file

/// A per-core line: `cpu` followed by a digit (`cpu0`, `cpu1`, ...).
pub open spec fn is_core_line(l: Seq<char>) -> bool {
    has_prefix(l, seq!['c', 'p', 'u']) && l.len() > 3 && is_digit(l[3])
}

/// How many per-core lines follow, without a gap, from line `i` on.
pub open spec fn core_run(ls: Seq<Seq<char>>, i: int) -> nat
    decreases ls.len() - i,
{
    if i < 1 || i >= ls.len() || !is_core_line(ls[i]) {
        0
    } else {
        1 + core_run(ls, i + 1)
    }
}

/// The number of per-core lines that directly follow the aggregate line.
pub open spec fn core_count(content: Seq<char>) -> nat {
    core_run(lines(content), 1)
}

/// Every line that [`parse_stat`] reads has counters that add up to a `u64`.
pub open spec fn stat_fits(content: Seq<char>) -> bool {
    let ls = lines(content);
    ls.len() > 0 ==> (stat_line_fits(ls[0]) && forall|i: int|
        1 <= i <= core_count(content) ==> stat_line_fits(#[trigger] ls[i]))
}

pub proof fn lemma_core_run(ls: Seq<Seq<char>>, i: int)
    requires
        1 <= i,
    ensures
        i + core_run(ls, i) <= ls.len() || core_run(ls, i) == 0,
        forall|j: int| i <= j < i + core_run(ls, i) ==> is_core_line(#[trigger] ls[j]),
    decreases ls.len() - i,
{
    if i < ls.len() && is_core_line(ls[i]) {
        lemma_core_run(ls, i + 1);
    }
}

/// The cores of a reading are all the lines `cpu<digit>...` that directly
/// follow the first line: each of them is one, and the line after the last
/// of them, where there is one, is not.
pub proof fn lemma_core_lines(content: Seq<char>)
    ensures
        ({
            let ls = lines(content);
            let n = core_count(content) as int;
            &&& ls.len() > 0 ==> n + 1 <= ls.len()
            &&& forall|i: int|
                1 <= i <= n ==> has_prefix(#[trigger] ls[i], "cpu"@) && ls[i].len() > 3 && '0'
                    <= ls[i][3] <= '9'
            &&& n + 1 < ls.len() ==> !(has_prefix(ls[n + 1], "cpu"@) && ls[n + 1].len() > 3
                && '0' <= ls[n + 1][3] <= '9')
        }),
{
    reveal_strlit("cpu");
    assert("cpu"@ =~= seq!['c', 'p', 'u']);
    let ls = lines(content);
    lemma_core_run(ls, 1);
    lemma_core_run_end(ls, 1);
}

proof fn lemma_core_run_end(ls: Seq<Seq<char>>, i: int)
    requires
        1 <= i,
    ensures
        i + core_run(ls, i) < ls.len() ==> !is_core_line(ls[i + core_run(ls, i)]),
        i <= ls.len() ==> i + core_run(ls, i) <= ls.len(),
    decreases ls.len() - i,
{
    if i < ls.len() && is_core_line(ls[i]) {
        lemma_core_run_end(ls, i + 1);
    }
}

/// Whether every line that [`parse_stat`] reads has counters that add up
/// to a `u64`.
pub fn stat_fits_u64(content: &str) -> (b: bool)
    ensures
        b == stat_fits(content@),
{
    match checked_stat(content) {
        Some(_) => true,
        None => false,
    }
}

/// A per-core line.
fn core_line(l: &[char]) -> (b: bool)
    ensures
        b == is_core_line(l@),
{
    let cpu = vec!['c', 'p', 'u'];
    assert(cpu@ =~= seq!['c', 'p', 'u']);
    starts_with(l, cpu.as_slice()) && l.len() > 3 && '0' <= l[3] && l[3] <= '9'
}

fn checked_stat(content: &str) -> (res: Option<Result<FullSnapshot, StatError>>)
    ensures
        res is Some <==> stat_fits(content@),
        res matches Some(r) ==> snapshot_of(content@, r),
{
    let chars = chars_of(content);
    let ls = split_lines(chars.as_slice());
    let ghost l = lines(content@);
    let n = ls.len();
    if n == 0 {
        return Some(Err(StatError::Empty));
    }
    let agg = match checked_stat_line(ls[0]) {
        Some(a) => a,
        None => return None,
    };
    let mut cores: Vec<StatSnapshot> = Vec::new();
    let mut k: usize = 1;
    while k < n && core_line(ls[k])
        invariant
            n == ls@.len() == l.len(),
            l == lines(content@),
            forall|j: int| 0 <= j < n ==> (#[trigger] ls@[j])@ == l[j],
            1 <= k <= n,
            core_run(l, 1) == (k - 1) + core_run(l, k as int),
            cores@.len() == k - 1,
            forall|j: int| 0 <= j < k - 1 ==> cores@[j] == stat_snapshot(#[trigger] l[j + 1]),
            forall|j: int| 1 <= j < k ==> stat_line_fits(#[trigger] l[j]),
        decreases n - k,
    {
        match checked_stat_line(ls[k]) {
            Some(c) => {
                cores.push(c);
            },
            None => {
                proof {
                    lemma_core_run(l, k as int);
                }
                assert(stat_line_fits(l[k as int]) == false);
                return None;
            },
        }
        k = k + 1;
    }
    assert(core_run(l, k as int) == 0);
    Some(Ok(FullSnapshot { agg, cores }))
}

/// `r` is what `/proc/stat` holding `content` reads as.
pub open spec fn snapshot_of(content: Seq<char>, r: Result<FullSnapshot, StatError>) -> bool {
    let ls = lines(content);
    match r {
        Err(e) => ls.len() == 0 && e == StatError::Empty,
        Ok(f) => {
            &&& ls.len() > 0
            &&& f.agg == stat_snapshot(ls[0])
            &&& f.cores@.len() == core_count(content)
            &&& forall|i: int| 0 <= i < f.cores@.len() ==> f.cores@[i] == stat_snapshot(#[trigger] ls[i + 1])
        },
    }
}

/// Reads `/proc/stat`: the first line is the aggregate, and the per-core
/// lines (`cpu0`, `cpu1`, ...) that follow it without a gap are the cores;
/// reading stops at the first other line. A file without lines is
/// [`StatError::Empty`].
pub fn parse_stat(content: &str) -> (res: Result<FullSnapshot, StatError>)
    requires
        stat_fits(content@),
    ensures
        snapshot_of(content@, res),
{
    match checked_stat(content) {
        Some(r) => r,
        None => vstd::pervasive::unreached(),
    }
}


// ---------------------------------------------------------------- elapsed ticks

/// The ticks that one core spent between two readings.
#[derive(Clone, Copy, Debug, PartialEq, Eq)]
pub struct CoreTicks {
    /// The core's position among the per-core lines.
    pub core: usize,
    /// All ticks of the core.
    pub total: u64,
    /// Idle ticks; 0 where no tick elapsed at all.
    pub idle: u64,
}

/// The ticks that elapsed between two readings of `/proc/stat`, from which
/// the usage percentages are derived (each counter over `total`).
#[derive(Debug)]
pub struct CpuTicks {
    pub total: u64,
    pub user: u64,
    pub system: u64,
    pub iowait: u64,
    pub idle: u64,
    pub cores: Vec<CoreTicks>,
}

/// Why two readings give no usage.
#[derive(Clone, Copy, Debug, PartialEq, Eq)]
pub enum CpuError {
    /// No tick elapsed between the readings ("cpu stat delta is zero").
    ZeroDelta,
}

pub open spec fn min(x: int, y: int) -> int {
    if x <= y {
        x
    } else {
        y
    }
}

/// The number of cores two readings have in common.
pub open spec fn shared_cores(a: FullSnapshot, b: FullSnapshot) -> int {
    min(a.cores@.len() as int, b.cores@.len() as int)
}

/// No counter that the comparison subtracts went backwards: the total
/// always, and where some tick elapsed, the others and those of every
/// shared core (its idle ticks where the core's total moved).
pub open spec fn comparable(a: FullSnapshot, b: FullSnapshot) -> bool {
    &&& a.agg.total <= b.agg.total
    &&& a.agg.total < b.agg.total ==> {
        &&& a.agg.idle <= b.agg.idle
        &&& a.agg.user <= b.agg.user
        &&& a.agg.system <= b.agg.system
        &&& a.agg.iowait <= b.agg.iowait
        &&& forall|i: int|
            0 <= i < shared_cores(a, b) ==> {
                &&& (#[trigger] a.cores@[i]).total <= b.cores@[i].total
                &&& a.cores@[i].total < b.cores@[i].total ==> a.cores@[i].idle <= b.cores@[i].idle
            }
    }
}

/// The ticks of core `i` between `ca` and `cb`.
pub open spec fn core_ticks(i: int, ca: StatSnapshot, cb: StatSnapshot) -> CoreTicks {
    CoreTicks {
        core: i as usize,
        total: (cb.total - ca.total) as u64,
        idle: if cb.total > ca.total {
            (cb.idle - ca.idle) as u64
        } else {
            0
        },
    }
}

/// `t` holds the ticks elapsed from `a` to `b`: each counter's growth, and
/// the cores that both readings have, in order, numbered from 0.
pub open spec fn ticks_between(a: FullSnapshot, b: FullSnapshot, t: CpuTicks) -> bool {
    &&& t.total == b.agg.total - a.agg.total
    &&& t.user == b.agg.user - a.agg.user
    &&& t.system == b.agg.system - a.agg.system
    &&& t.iowait == b.agg.iowait - a.agg.iowait
    &&& t.idle == b.agg.idle - a.agg.idle
    &&& t.cores@.len() == shared_cores(a, b)
    &&& forall|i: int|
        0 <= i < t.cores@.len() ==> #[trigger] t.cores@[i] == core_ticks(i, a.cores@[i], b.cores@[i])
}

/// `r` is the comparison of `a` with the later `b`.
pub open spec fn report_between(
    a: FullSnapshot,
    b: FullSnapshot,
    r: Result<CpuTicks, CpuError>,
) -> bool {
    match r {
        Err(e) => a.agg.total == b.agg.total && e == CpuError::ZeroDelta,
        Ok(t) => a.agg.total != b.agg.total && ticks_between(a, b, t),
    }
}

/// Whether `b` can be compared with the earlier `a`: see [`comparable`].
pub fn can_compare(a: &FullSnapshot, b: &FullSnapshot) -> (res: bool)
    ensures
        res == comparable(*a, *b),
{
    if a.agg.total > b.agg.total {
        return false;
    }
    if a.agg.total == b.agg.total {
        return true;
    }
    if !(a.agg.idle <= b.agg.idle && a.agg.user <= b.agg.user && a.agg.system <= b.agg.system
        && a.agg.iowait <= b.agg.iowait) {
        return false;
    }
    let n = if a.cores.len() <= b.cores.len() {
        a.cores.len()
    } else {
        b.cores.len()
    };
    let mut i: usize = 0;
    while i < n
        invariant
            n == shared_cores(*a, *b),
            a.agg.total < b.agg.total,
            i <= n,
            forall|j: int|
                0 <= j < i ==> {
                    &&& (#[trigger] a.cores@[j]).total <= b.cores@[j].total
                    &&& a.cores@[j].total < b.cores@[j].total ==> a.cores@[j].idle
                        <= b.cores@[j].idle
                },
        decreases n - i,
    {
        let ca = a.cores[i];
        let cb = b.cores[i];
        if ca.total > cb.total || (ca.total < cb.total && ca.idle > cb.idle) {
            assert(!({
                &&& (a.cores@[i as int]).total <= b.cores@[i as int].total
                &&& a.cores@[i as int].total < b.cores@[i as int].total ==> a.cores@[i as int].idle
                    <= b.cores@[i as int].idle
            }));
            return false;
        }
        i = i + 1;
    }
    true
}

/// The ticks that elapsed from the reading `a` to the later reading `b`.
/// No elapsed tick at all is [`CpuError::ZeroDelta`]. The cores are those
/// that both readings have, paired in order; a core whose total did not move
/// has no idle ticks either.
pub fn compute_report(a: &FullSnapshot, b: &FullSnapshot) -> (res: Result<CpuTicks, CpuError>)
    requires
        comparable(*a, *b),
    ensures
        report_between(*a, *b, res),
{
    let total = b.agg.total - a.agg.total;
    if total == 0 {
        return Err(CpuError::ZeroDelta);
    }
    let idle = b.agg.idle - a.agg.idle;
    let n = if a.cores.len() <= b.cores.len() {
        a.cores.len()
    } else {
        b.cores.len()
    };
    let mut cores: Vec<CoreTicks> = Vec::new();
    let mut i: usize = 0;
    while i < n
        invariant
            n == shared_cores(*a, *b),
            comparable(*a, *b),
            a.agg.total < b.agg.total,
            i <= n,
            cores@.len() == i,
            forall|j: int|
                0 <= j < i ==> #[trigger] cores@[j] == core_ticks(j, a.cores@[j], b.cores@[j]),
        decreases n - i,
    {
        let ca = a.cores[i];
        let cb = b.cores[i];
        assert(a.cores@[i as int].total <= b.cores@[i as int].total);
        let core_total = cb.total - ca.total;
        let core_idle = if core_total > 0 {
            cb.idle - ca.idle
        } else {
            0
        };
        cores.push(CoreTicks { core: i, total: core_total, idle: core_idle });
        i = i + 1;
    }
    Ok(
        CpuTicks {
            total,
            user: b.agg.user - a.agg.user,
            system: b.agg.system - a.agg.system,
            iowait: b.agg.iowait - a.agg.iowait,
            idle,
            cores,
        },
    )
}

/// What one collection does with a fresh reading.
#[derive(Debug)]
pub enum CpuStep {
    /// The reading was compared with the baseline of the previous
    /// collection.
    Compared(Result<CpuTicks, CpuError>),
    /// There is no baseline yet: the caller takes two readings a short
    /// while apart and hands them to [`collect_pair`].
    SampleTwice,
}

/// One collection, given the `baseline` that earlier collections left and a
/// `current` reading. With a baseline, `current` is compared with it and
/// becomes the new baseline, whatever the comparison gives. Without one
/// nothing is compared, the baseline stays empty and `current` is dropped:
/// the caller samples twice instead.
pub fn collect(baseline: &mut Option<FullSnapshot>, current: FullSnapshot) -> (res: CpuStep)
    requires
        *old(baseline) matches Some(prev) ==> comparable(prev, current),
    ensures
        *old(baseline) matches Some(prev) ==> {
            &&& res matches CpuStep::Compared(r) && report_between(prev, current, r)
            &&& *final(baseline) == Some(current)
        },
        *old(baseline) is None ==> res is SampleTwice && *final(baseline) is None,
{
    match baseline.take() {
        Some(prev) => {
            let r = compute_report(&prev, &current);
            *baseline = Some(current);
            CpuStep::Compared(r)
        },
        None => CpuStep::SampleTwice,
    }
}

/// The collection without a baseline: `a` and the later `b` are compared,
/// and `b` becomes the baseline, whatever the comparison gives.
pub fn collect_pair(baseline: &mut Option<FullSnapshot>, a: FullSnapshot, b: FullSnapshot) -> (res:
    Result<CpuTicks, CpuError>)
    requires
        comparable(a, b),
    ensures
        report_between(a, b, res),
        *final(baseline) == Some(b),
{
    let r = compute_report(&a, &b);
    *baseline = Some(b);
    r
}

} // verus!
