//! Mounted filesystems from `/proc/mounts`, and their size from `statvfs`.

use vstd::prelude::*;
use crate::text::{chars_eq, chars_of, lines, split_lines, split_words, string_of, words};

verus! {

/// The usage of one mounted filesystem, in kB.
#[derive(Debug)]
pub struct DiskEntry {
    pub mount: String,
    pub total_kb: u64,
    /// Total less available, or 0 where available exceeds total.
    pub used_kb: u64,
    pub available_kb: u64,
}

/// The filesystems the exporter reports.
#[derive(Debug)]
pub struct DiskReport {
    pub filesystems: Vec<DiskEntry>,
}

/// What `statvfs` says of a filesystem: the fragment size in bytes, the
/// size in fragments, and the fragments available to unprivileged users.
#[derive(Clone, Copy, Debug, PartialEq, Eq)]
pub struct FsStats {
    pub frsize: u64,
    pub blocks: u64,
    pub bavail: u64,
}

/// Pseudo and virtual filesystem types that are not reported.
pub open spec fn skipped_types() -> Seq<Seq<char>> {
    seq![
        "tmpfs"@, "devtmpfs"@, "proc"@, "sysfs"@, "devpts"@, "cgroup"@, "cgroup2"@,
        "pstore"@, "bpf"@, "tracefs"@, "hugetlbfs"@, "mqueue"@, "debugfs"@, "fusectl"@,
        "securityfs"@, "efivarfs"@, "autofs"@, "configfs"@, "squashfs"@,
    ]
}

/// Field `i` of `w`, or the empty text.
pub open spec fn field_or_empty(w: Seq<Seq<char>>, i: int) -> Seq<char> {
    if 0 <= i < w.len() {
        w[i]
    } else {
        seq![]
    }
}

/// The mount point of a `/proc/mounts` line: its second field.
pub open spec fn mount_point(line: Seq<char>) -> Seq<char> {
    field_or_empty(words(line), 1)
}

/// The filesystem type of a `/proc/mounts` line: its third field.
pub open spec fn fs_type(line: Seq<char>) -> Seq<char> {
    field_or_empty(words(line), 2)
}

/// The mount points to look at among `ls`, in order: those of lines whose
/// filesystem type is not skipped, each the first time it appears on such a
/// line.
pub open spec fn mounts_to_probe(ls: Seq<Seq<char>>) -> Seq<Seq<char>>
    decreases ls.len(),
{
    if ls.len() == 0 {
        seq![]
    } else {
        let earlier = mounts_to_probe(ls.drop_last());
        let l = ls.last();
        if skipped_types().contains(fs_type(l)) || earlier.contains(mount_point(l)) {
            earlier
        } else {
            earlier.push(mount_point(l))
        }
    }
}

/// Each mount point is looked at once at most, and never for a line whose
/// filesystem type is skipped.
pub proof fn lemma_mounts_distinct(ls: Seq<Seq<char>>)
    ensures
        forall|i: int, j: int|
            0 <= i < j < mounts_to_probe(ls).len() ==> #[trigger] mounts_to_probe(ls)[i]
                != #[trigger] mounts_to_probe(ls)[j],
        forall|m: Seq<char>|
            #[trigger] mounts_to_probe(ls).contains(m) ==> exists|k: int|
                0 <= k < ls.len() && mount_point(#[trigger] ls[k]) == m && !skipped_types().contains(
                    fs_type(ls[k]),
                ),
    decreases ls.len(),
{
    if ls.len() > 0 {
        let prev = ls.drop_last();
        lemma_mounts_distinct(prev);
        let earlier = mounts_to_probe(prev);
        assert forall|m: Seq<char>| #[trigger] mounts_to_probe(ls).contains(m) implies exists|k: int|
            0 <= k < ls.len() && mount_point(#[trigger] ls[k]) == m && !skipped_types().contains(
                fs_type(ls[k]),
            ) by {
            if earlier.contains(m) {
                let k = choose|k: int|
                    0 <= k < prev.len() && mount_point(#[trigger] prev[k]) == m
                        && !skipped_types().contains(fs_type(prev[k]));
                assert(prev[k] == ls[k]);
            } else {
                let n = ls.len() - 1;
                let t = mounts_to_probe(ls);
                assert(t == earlier.push(mount_point(ls.last())));
                let idx = choose|idx: int| 0 <= idx < t.len() && t[idx] == m;
                assert(idx == earlier.len());
                assert(ls[n] == ls.last());
            }
        }
    }
}

/// What is once looked at stays looked at as lines are added.
proof fn lemma_probe_grows(ls: Seq<Seq<char>>, m: Seq<char>)
    requires
        ls.len() > 0,
        mounts_to_probe(ls.drop_last()).contains(m),
    ensures
        mounts_to_probe(ls).contains(m),
{
    let earlier = mounts_to_probe(ls.drop_last());
    let i = choose|i: int| 0 <= i < earlier.len() && earlier[i] == m;
    if !(skipped_types().contains(fs_type(ls.last())) || earlier.contains(mount_point(ls.last()))) {
        assert(mounts_to_probe(ls)[i] == m);
    }
}

/// Every mount point is looked at, but for those that only lines of the
/// nineteen pseudo and virtual filesystem types (tmpfs, devtmpfs, proc,
/// sysfs, devpts, cgroup, cgroup2, pstore, bpf, tracefs, hugetlbfs,
/// mqueue, debugfs, fusectl, securityfs, efivarfs, autofs, configfs,
/// squashfs) name: a line of any other type, such as ext4, xfs or btrfs,
/// has its mount point looked at.
pub proof fn lemma_real_filesystems_probed(ls: Seq<Seq<char>>)
    ensures
        forall|k: int|
            0 <= k < ls.len() && !seq![
                "tmpfs"@, "devtmpfs"@, "proc"@, "sysfs"@, "devpts"@, "cgroup"@, "cgroup2"@,
                "pstore"@, "bpf"@, "tracefs"@, "hugetlbfs"@, "mqueue"@, "debugfs"@, "fusectl"@,
                "securityfs"@, "efivarfs"@, "autofs"@, "configfs"@, "squashfs"@,
            ].contains(fs_type(#[trigger] ls[k])) ==> mounts_to_probe(ls).contains(mount_point(ls[k])),
    decreases ls.len(),
{
    if ls.len() > 0 {
        let prev = ls.drop_last();
        lemma_real_filesystems_probed(prev);
        let n = ls.len() - 1;
        assert forall|k: int|
            0 <= k < ls.len() && !skipped_types().contains(fs_type(#[trigger] ls[k])) implies mounts_to_probe(ls).contains(mount_point(ls[k])) by {
            if k < n {
                assert(prev[k] == ls[k]);
                lemma_probe_grows(ls, mount_point(ls[k]));
            } else {
                let earlier = mounts_to_probe(prev);
                if !earlier.contains(mount_point(ls.last())) {
                    assert(mounts_to_probe(ls)[earlier.len() as int] == mount_point(ls[k]));
                } else {
                    lemma_probe_grows(ls, mount_point(ls[k]));
                }
            }
        }
    }
}

/// A filesystem in the report has a positive size, and its used space
/// never exceeds it.
pub proof fn lemma_listed_entries(mount: Seq<char>, st: FsStats, e: DiskEntry)
    requires
        entry_of(mount, st, e),
        stats_fit(st),
        st.blocks * st.frsize / 1024 > 0,
    ensures
        e.total_kb > 0,
        e.used_kb <= e.total_kb,
        e.available_kb <= e.total_kb ==> e.used_kb + e.available_kb == e.total_kb,
{
}

/// The sizes are the byte counts of `statvfs` (fragments times fragment
/// size) in whole kB of 1024 bytes, rounded down, and the used space is
/// what is not available.
pub proof fn lemma_entry_in_kb(mount: Seq<char>, st: FsStats, e: DiskEntry)
    requires
        entry_of(mount, st, e),
        stats_fit(st),
    ensures
        e.total_kb * 1024 <= st.blocks * st.frsize < e.total_kb * 1024 + 1024,
        e.available_kb * 1024 <= st.bavail * st.frsize < e.available_kb * 1024 + 1024,
        e.used_kb == if e.available_kb <= e.total_kb {
            e.total_kb - e.available_kb
        } else {
            0
        },
{
    assert(st.blocks * st.frsize >= 0) by (nonlinear_arith);
    assert(st.bavail * st.frsize >= 0) by (nonlinear_arith);
}

fn is_skipped_type(t: &[char]) -> (b: bool)
    ensures
        b == skipped_types().contains(t@),
{
    let names = [
        "tmpfs", "devtmpfs", "proc", "sysfs", "devpts", "cgroup", "cgroup2", "pstore", "bpf",
        "tracefs", "hugetlbfs", "mqueue", "debugfs", "fusectl", "securityfs", "efivarfs",
        "autofs", "configfs", "squashfs",
    ];
    assert(names@.map_values(|n: &str| n@) =~= skipped_types());
    let mut i: usize = 0;
    while i < 19
        invariant
            names@.len() == 19,
            names@.map_values(|n: &str| n@) == skipped_types(),
            i <= 19,
            forall|j: int| 0 <= j < i ==> skipped_types()[j] != t@,
        decreases 19 - i,
    {
        let name = chars_of(names[i]);
        assert(names@.map_values(|n: &str| n@)[i as int] == names@[i as int]@);
        if chars_eq(t, name.as_slice()) {
            assert(skipped_types()[i as int] == t@);
            return true;
        }
        i = i + 1;
    }
    false
}

fn contains_chars(seen: &Vec<Vec<char>>, m: &[char]) -> (b: bool)
    ensures
        b == seen@.map_values(|v: Vec<char>| v@).contains(m@),
{
    let ghost views = seen@.map_values(|v: Vec<char>| v@);
    let mut i: usize = 0;
    while i < seen.len()
        invariant
            views == seen@.map_values(|v: Vec<char>| v@),
            i <= seen@.len(),
            forall|j: int| 0 <= j < i ==> views[j] != m@,
        decreases seen@.len() - i,
    {
        if chars_eq(seen[i].as_slice(), m) {
            assert(views[i as int] == m@);
            return true;
        }
        i = i + 1;
    }
    false
}

/// The mount points of `/proc/mounts` holding `content` that the report
/// looks at: see [`mounts_to_probe`].
pub fn select_mounts(content: &str) -> (res: Vec<String>)
    ensures
        res@.map_values(|s: String| s@) == mounts_to_probe(lines(content@)),
{
    let chars = chars_of(content);
    let ls = split_lines(chars.as_slice());
    let ghost l = lines(content@);
    let mut seen: Vec<Vec<char>> = Vec::new();
    let mut res: Vec<String> = Vec::new();
    let empty: Vec<char> = Vec::new();
    let mut i: usize = 0;
    while i < ls.len()
        invariant
            ls@.len() == l.len(),
            l == lines(content@),
            forall|j: int| 0 <= j < l.len() ==> (#[trigger] ls@[j])@ == l[j],
            empty@ == Seq::<char>::empty(),
            i <= l.len(),
            seen@.map_values(|v: Vec<char>| v@) == mounts_to_probe(l.subrange(0, i as int)),
            res@.map_values(|s: String| s@) == mounts_to_probe(l.subrange(0, i as int)),
        decreases l.len() - i,
    {
        let line = ls[i];
        let ghost prefix = l.subrange(0, i + 1);
        assert(prefix.drop_last() =~= l.subrange(0, i as int));
        assert(prefix.last() == line@);
        let w = split_words(line);
        let mount = if w.len() > 1 {
            w[1]
        } else {
            empty.as_slice()
        };
        let fs = if w.len() > 2 {
            w[2]
        } else {
            empty.as_slice()
        };
        assert(mount@ == mount_point(line@));
        assert(fs@ == fs_type(line@));
        if !is_skipped_type(fs) && !contains_chars(&seen, mount) {
            let ghost before_seen = seen@;
            let ghost before_res = res@;
            seen.push(vstd::slice::slice_to_vec(mount));
            res.push(string_of(mount));
            assert(seen@.map_values(|v: Vec<char>| v@) =~= before_seen.map_values(
                |v: Vec<char>| v@,
            ).push(mount@));
            assert(res@.map_values(|s: String| s@) =~= before_res.map_values(|s: String| s@).push(
                mount@,
            ));
        }
        i = i + 1;
    }
    assert(l.subrange(0, l.len() as int) =~= l);
    res
}

/// The sizes of `st` in bytes fit in a `u64`.
pub open spec fn stats_fit(st: FsStats) -> bool {
    st.blocks * st.frsize <= u64::MAX && st.bavail * st.frsize <= u64::MAX
}

/// Whether the sizes of `st` in bytes fit in a `u64`, as [`statvfs_entry`]
/// needs.
pub fn stats_fit_u64(st: FsStats) -> (b: bool)
    ensures
        b == stats_fit(st),
{
    st.blocks.checked_mul(st.frsize).is_some() && st.bavail.checked_mul(st.frsize).is_some()
}

/// `e` is the usage of the filesystem at `mount` that `st` describes:
/// sizes in whole kB (rounded down), used being total less available.
pub open spec fn entry_of(mount: Seq<char>, st: FsStats, e: DiskEntry) -> bool {
    let total = (st.blocks * st.frsize / 1024) as u64;
    let available = (st.bavail * st.frsize / 1024) as u64;
    &&& e.mount@ == mount
    &&& e.total_kb == total
    &&& e.available_kb == available
    &&& e.used_kb == if total >= available {
        total - available
    } else {
        0
    }
}

/// The usage of the filesystem at `mount`, from what `statvfs` says of it.
pub fn statvfs_entry(mount: &str, st: FsStats) -> (res: DiskEntry)
    requires
        stats_fit(st),
    ensures
        entry_of(mount@, st, res),
{
    let total_kb = st.blocks * st.frsize / 1024;
    let available_kb = st.bavail * st.frsize / 1024;
    DiskEntry {
        mount: mount.to_owned(),
        total_kb,
        used_kb: total_kb.saturating_sub(available_kb),
        available_kb,
    }
}

/// The probes whose filesystem the report lists: `statvfs` succeeded and
/// the filesystem has a positive size in kB.
pub open spec fn listed(p: (String, Option<FsStats>)) -> bool {
    p.1 is Some && p.1->0.blocks * p.1->0.frsize / 1024 > 0
}

/// The indices of the probes among the first `k` that the report lists, in
/// order.
pub open spec fn listed_probes(probes: Seq<(String, Option<FsStats>)>, k: int) -> Seq<int>
    decreases k,
{
    if k <= 0 || k > probes.len() {
        seq![]
    } else if listed(probes[k - 1]) {
        listed_probes(probes, k - 1).push(k - 1)
    } else {
        listed_probes(probes, k - 1)
    }
}

/// The report on the mount points that were looked at: `probes` pairs each
/// with what `statvfs` said of it (`None` where it failed). The report lists
/// the filesystems whose size is known and positive, in order.
pub fn disk_report(probes: Vec<(String, Option<FsStats>)>) -> (res: DiskReport)
    requires
        forall|i: int| 0 <= i < probes@.len() && (#[trigger] probes@[i]).1 is Some ==> stats_fit(probes@[i].1->0),
    ensures
        res.filesystems@.len() == listed_probes(probes@, probes@.len() as int).len(),
        forall|j: int|
            0 <= j < res.filesystems@.len() ==> {
                let p = probes@[#[trigger] listed_probes(probes@, probes@.len() as int)[j]];
                entry_of(p.0@, p.1->0, res.filesystems@[j])
            },
{
    let mut filesystems: Vec<DiskEntry> = Vec::new();
    let mut i: usize = 0;
    while i < probes.len()
        invariant
            forall|q: int| 0 <= q < probes@.len() && (#[trigger] probes@[q]).1 is Some ==> stats_fit(probes@[q].1->0),
            i <= probes@.len(),
            filesystems@.len() == listed_probes(probes@, i as int).len(),
            forall|j: int|
                0 <= j < filesystems@.len() ==> {
                    let p = probes@[#[trigger] listed_probes(probes@, i as int)[j]];
                    entry_of(p.0@, p.1->0, filesystems@[j])
                },
        decreases probes@.len() - i,
    {
        let (mount, st) = &probes[i];
        match st {
            Some(s) => {
                let entry = statvfs_entry(mount.as_str(), *s);
                if entry.total_kb > 0 {
                    assert(listed_probes(probes@, i + 1) == listed_probes(probes@, i as int).push(i as int));
                    filesystems.push(entry);
                } else {
                    assert(listed_probes(probes@, i + 1) == listed_probes(probes@, i as int));
                }
            },
            None => {
                assert(listed_probes(probes@, i + 1) == listed_probes(probes@, i as int));
            },
        }
        i = i + 1;
    }
    DiskReport { filesystems }
}

} // verus!
