//! Block device I/O counters from `/proc/diskstats`.

use vstd::prelude::*;
use crate::numbers::{read_u64_or_zero, u64_or_zero};
use crate::text::{chars_of, has_prefix, lines, split_lines, split_words, starts_with, string_of, words};

verus! {

/// The counters of one block device.
#[derive(Debug)]
pub struct DiskStatsEntry {
    pub device: String,
    pub reads_completed: u64,
    pub writes_completed: u64,
    /// Sectors read, in bytes (512 per sector).
    pub read_bytes: u64,
    /// Sectors written, in bytes (512 per sector).
    pub written_bytes: u64,
    pub read_ms: u64,
    pub write_ms: u64,
}

/// The block devices of `/proc/diskstats`, in file order.
#[derive(Debug)]
pub struct DiskStatsReport {
    pub devices: Vec<DiskStatsEntry>,
}

/// Field `i` of a line, read as a `u64` (0 where it is not one).
pub open spec fn stat_field(line: Seq<char>, i: int) -> u64 {
    u64_or_zero(words(line)[i])
}

/// A line that describes a device the report keeps: at least eleven fields,
/// and a device name (the third field) that does not begin with `loop` or
/// `ram`.
pub open spec fn is_device_line(line: Seq<char>) -> bool {
    &&& words(line).len() >= 11
    &&& !has_prefix(words(line)[2], seq!['l', 'o', 'o', 'p'])
    &&& !has_prefix(words(line)[2], seq!['r', 'a', 'm'])
}

/// `e` is what the device line `line` says: the name is the third field;
/// reads completed, sectors read, time reading, writes completed, sectors
/// written and time writing are fields 4, 6, 7, 8, 10 and 11.
pub open spec fn describes(line: Seq<char>, e: DiskStatsEntry) -> bool {
    &&& e.device@ == words(line)[2]
    &&& e.reads_completed == stat_field(line, 3)
    &&& e.read_bytes == stat_field(line, 5) * 512
    &&& e.read_ms == stat_field(line, 6)
    &&& e.writes_completed == stat_field(line, 7)
    &&& e.written_bytes == stat_field(line, 9) * 512
    &&& e.write_ms == stat_field(line, 10)
}

/// The byte counts of a device line fit in a `u64`.
pub open spec fn line_fits(line: Seq<char>) -> bool {
    stat_field(line, 5) * 512 <= u64::MAX && stat_field(line, 9) * 512 <= u64::MAX
}

/// The device lines among `ls`, in order.
pub open spec fn device_lines(ls: Seq<Seq<char>>) -> Seq<Seq<char>>
    decreases ls.len(),
{
    if ls.len() == 0 {
        seq![]
    } else if is_device_line(ls.last()) {
        device_lines(ls.drop_last()).push(ls.last())
    } else {
        device_lines(ls.drop_last())
    }
}

/// The byte counts of every device line of `content` fit in a `u64`.
pub open spec fn diskstats_fit(content: Seq<char>) -> bool {
    forall|i: int|
        0 <= i < device_lines(lines(content)).len() ==> line_fits(
            #[trigger] device_lines(lines(content))[i],
        )
}

pub proof fn lemma_device_lines_prefix(ls: Seq<Seq<char>>, k: int)
    requires
        0 <= k <= ls.len(),
    ensures
        device_lines(ls.subrange(0, k)).len() <= device_lines(ls).len(),
        forall|j: int|
            0 <= j < device_lines(ls.subrange(0, k)).len() ==> #[trigger] device_lines(
                ls.subrange(0, k),
            )[j] == device_lines(ls)[j],
    decreases ls.len(),
{
    if k < ls.len() {
        lemma_device_lines_prefix(ls.drop_last(), k);
        assert(ls.drop_last().subrange(0, k) =~= ls.subrange(0, k));
    } else {
        assert(ls.subrange(0, k) =~= ls);
    }
}

pub proof fn lemma_device_lines(ls: Seq<Seq<char>>)
    ensures
        forall|i: int| 0 <= i < device_lines(ls).len() ==> is_device_line(#[trigger] device_lines(ls)[i]),
    decreases ls.len(),
{
    if ls.len() > 0 {
        lemma_device_lines(ls.drop_last());
        let p = device_lines(ls.drop_last());
        assert forall|i: int| 0 <= i < device_lines(ls).len() implies is_device_line(#[trigger] device_lines(ls)[i]) by {
            if i < p.len() {
                assert(device_lines(ls)[i] == p[i]);
            }
        }
    }
}

/// No reported device is a `loop` or `ram` device.
pub proof fn lemma_no_loop_or_ram(content: Seq<char>)
    ensures
        forall|i: int|
            0 <= i < device_lines(lines(content)).len() ==> {
                let name = words(#[trigger] device_lines(lines(content))[i])[2];
                !has_prefix(name, seq!['l', 'o', 'o', 'p']) && !has_prefix(name, seq!['r', 'a', 'm'])
            },
{
    lemma_device_lines(lines(content));
}

proof fn lemma_device_lines_filter(ls: Seq<Seq<char>>)
    ensures
        device_lines(ls) == ls.filter(
            |l: Seq<char>|
                words(l).len() >= 11 && !has_prefix(words(l)[2], seq!['l', 'o', 'o', 'p'])
                    && !has_prefix(words(l)[2], seq!['r', 'a', 'm']),
        ),
    decreases ls.len(),
{
    reveal(Seq::filter);
    if ls.len() > 0 {
        lemma_device_lines_filter(ls.drop_last());
    }
}

/// Every line with at least eleven fields is reported, in file order,
/// unless its device name begins with `loop` or `ram`: no other device, of
/// whatever name or kind, is left out.
pub proof fn lemma_every_device_reported(content: Seq<char>)
    ensures
        device_lines(lines(content)) == lines(content).filter(
            |l: Seq<char>|
                words(l).len() >= 11 && !has_prefix(words(l)[2], seq!['l', 'o', 'o', 'p'])
                    && !has_prefix(words(l)[2], seq!['r', 'a', 'm']),
        ),
{
    lemma_device_lines_filter(lines(content));
}

/// Reads a device line, or `None` where its byte counts do not fit.
fn checked_entry(line: &[char]) -> (res: Option<DiskStatsEntry>)
    requires
        is_device_line(line@),
    ensures
        res is Some <==> line_fits(line@),
        res matches Some(e) ==> describes(line@, e),
{
    let w = split_words(line);
    let sectors_read = read_u64_or_zero(w[5]);
    let sectors_written = read_u64_or_zero(w[9]);
    let read_bytes = match sectors_read.checked_mul(512) {
        Some(b) => b,
        None => return None,
    };
    let written_bytes = match sectors_written.checked_mul(512) {
        Some(b) => b,
        None => return None,
    };
    Some(
        DiskStatsEntry {
            device: string_of(w[2]),
            reads_completed: read_u64_or_zero(w[3]),
            writes_completed: read_u64_or_zero(w[7]),
            read_bytes,
            written_bytes,
            read_ms: read_u64_or_zero(w[6]),
            write_ms: read_u64_or_zero(w[10]),
        },
    )
}

fn device_line(line: &[char]) -> (b: bool)
    ensures
        b == is_device_line(line@),
{
    let w = split_words(line);
    if w.len() < 11 {
        return false;
    }
    let lp = vec!['l', 'o', 'o', 'p'];
    let ram = vec!['r', 'a', 'm'];
    assert(lp@ =~= seq!['l', 'o', 'o', 'p']);
    assert(ram@ =~= seq!['r', 'a', 'm']);
    !starts_with(w[2], lp.as_slice()) && !starts_with(w[2], ram.as_slice())
}

fn checked_diskstats(content: &str) -> (res: Option<DiskStatsReport>)
    ensures
        res is Some <==> diskstats_fit(content@),
        res matches Some(r) ==> {
            &&& r.devices@.len() == device_lines(lines(content@)).len()
            &&& forall|i: int|
                0 <= i < r.devices@.len() ==> describes(
                    #[trigger] device_lines(lines(content@))[i],
                    r.devices@[i],
                )
        },
{
    let chars = chars_of(content);
    let ls = split_lines(chars.as_slice());
    let ghost l = lines(content@);
    let mut devices: Vec<DiskStatsEntry> = Vec::new();
    let mut i: usize = 0;
    while i < ls.len()
        invariant
            ls@.len() == l.len(),
            l == lines(content@),
            forall|j: int| 0 <= j < l.len() ==> (#[trigger] ls@[j])@ == l[j],
            i <= l.len(),
            devices@.len() == device_lines(l.subrange(0, i as int)).len(),
            forall|j: int|
                0 <= j < devices@.len() ==> describes(
                    #[trigger] device_lines(l.subrange(0, i as int))[j],
                    devices@[j],
                ),
            forall|j: int|
                0 <= j < devices@.len() ==> line_fits(
                    #[trigger] device_lines(l.subrange(0, i as int))[j],
                ),
        decreases l.len() - i,
    {
        let line = ls[i];
        let ghost prefix = l.subrange(0, i + 1);
        assert(prefix.drop_last() =~= l.subrange(0, i as int));
        assert(prefix.last() == line@);
        if device_line(line) {
            assert(device_lines(prefix) == device_lines(prefix.drop_last()).push(line@));
            match checked_entry(line) {
                Some(e) => {
                    devices.push(e);
                },
                None => {
                    proof {
                        lemma_device_lines_prefix(l, i + 1);
                        let k = device_lines(prefix.drop_last()).len() as int;
                        assert(device_lines(prefix)[k] == line@);
                        assert(device_lines(l)[k] == line@);
                    }
                    return None;
                },
            }
        } else {
            assert(device_lines(prefix) == device_lines(prefix.drop_last()));
        }
        i = i + 1;
    }
    assert(l.subrange(0, l.len() as int) =~= l);
    Some(DiskStatsReport { devices })
}

/// Whether the byte counts of every device line fit in a `u64`, as
/// [`parse_diskstats`] needs.
pub fn diskstats_fit_u64(content: &str) -> (b: bool)
    ensures
        b == diskstats_fit(content@),
{
    checked_diskstats(content).is_some()
}

/// Reads `/proc/diskstats`: one entry per device line, in order, leaving
/// out lines with fewer than eleven fields and `loop` and `ram` devices.
pub fn parse_diskstats(content: &str) -> (res: DiskStatsReport)
    requires
        diskstats_fit(content@),
    ensures
        res.devices@.len() == device_lines(lines(content@)).len(),
        forall|i: int|
            0 <= i < res.devices@.len() ==> describes(
                #[trigger] device_lines(lines(content@))[i],
                res.devices@[i],
            ),
{
    match checked_diskstats(content) {
        Some(r) => r,
        None => vstd::pervasive::unreached(),
    }
}

} // verus!
