//! The exposition read as lines: where no value, label and error text holds
//! a line break, the text is a sequence of whole lines, in which every
//! metric has its `# HELP` line, then its `# TYPE` line, then its samples.

use vstd::prelude::*;
use crate::diagnostics::host::HostReport;
use crate::metrics::{
    block_text, blocks_text, core_samples, cpu_blocks, disk_blocks, exposition, failure_text,
    fs_samples, help_text, host_blocks, is_line, lemma_comment_is_line, lemma_family_lines,
    lemma_layout, memory_blocks, metric_helps, metric_names, net_samples, network_blocks,
    no_newline, report_blocks, sample_text, samples_text, system_blocks, Block,
    CoreGauge, CoreGauges, CpuGauges, FilesystemGauges, FsGauge, InterfaceGauges, MemoryGauges,
    NetCounter, Sample, SystemGauges,
};
use crate::numbers::{is_digit, lemma_decimal_value};
use crate::{CheckResult, Report};

verus! {

/// The lines, one after the other.
pub open spec fn join(ls: Seq<Seq<char>>) -> Seq<char>
    decreases ls.len(),
{
    if ls.len() == 0 {
        seq![]
    } else {
        join(ls.drop_last()) + ls.last()
    }
}

/// The `# HELP` line of a metric.
pub open spec fn help_line(name: Seq<char>, help: Seq<char>) -> Seq<char> {
    "# HELP "@ + name + " "@ + help + "\n"@
}

/// The `# TYPE` line of a metric.
pub open spec fn type_line(name: Seq<char>) -> Seq<char> {
    "# TYPE "@ + name + " gauge\n"@
}

/// One line per sample.
pub open spec fn sample_lines(name: Seq<char>, samples: Seq<Sample>) -> Seq<Seq<char>> {
    samples.map_values(|s: Sample| sample_text(name, s.0, s.1))
}

/// The lines of a block: a metric's `# HELP` line, its `# TYPE` line and
/// its sample lines, or the one line of a collector's comment.
pub open spec fn block_lines(b: Block) -> Seq<Seq<char>> {
    match b {
        Block::Family { metric, samples } => {
            let name = metric_names()[metric];
            seq![help_line(name, metric_helps()[metric]), type_line(name)] + sample_lines(name, samples)
        },
        Block::Comment { collector, error } => seq![failure_text(collector, error)],
    }
}

/// The lines of the blocks, in order.
pub open spec fn lines_of(bs: Seq<Block>) -> Seq<Seq<char>>
    decreases bs.len(),
{
    if bs.len() == 0 {
        seq![]
    } else {
        lines_of(bs.drop_last()) + block_lines(bs.last())
    }
}

/// The lines of the exposition of `r`.
pub open spec fn report_lines(r: Report) -> Seq<Seq<char>> {
    lines_of(report_blocks(r))
}

pub proof fn lemma_join_concat(a: Seq<Seq<char>>, b: Seq<Seq<char>>)
    ensures
        join(a + b) == join(a) + join(b),
    decreases b.len(),
{
    if b.len() == 0 {
        assert(a + b =~= a);
        assert(join(a) + Seq::<char>::empty() =~= join(a));
    } else {
        lemma_join_concat(a, b.drop_last());
        assert((a + b).drop_last() =~= a + b.drop_last());
        assert((a + b).last() == b.last());
        assert(join(a + b) =~= join(a) + join(b));
    }
}

proof fn lemma_samples_join(name: Seq<char>, samples: Seq<Sample>)
    ensures
        samples_text(name, samples) == join(sample_lines(name, samples)),
    decreases samples.len(),
{
    if samples.len() > 0 {
        lemma_samples_join(name, samples.drop_last());
        assert(sample_lines(name, samples).drop_last() =~= sample_lines(name, samples.drop_last()));
        assert(sample_lines(name, samples).last() == sample_text(name, samples.last().0, samples.last().1));
    }
}

proof fn lemma_help_split(name: Seq<char>, help: Seq<char>)
    ensures
        help_text(name, help) == help_line(name, help) + type_line(name),
{
    reveal_strlit("# HELP ");
    reveal_strlit(" ");
    reveal_strlit("\n");
    reveal_strlit("\n# TYPE ");
    reveal_strlit("# TYPE ");
    reveal_strlit(" gauge\n");
    assert(help_text(name, help) =~= help_line(name, help) + type_line(name));
}

proof fn lemma_block_join(b: Block)
    ensures
        block_text(b) == join(block_lines(b)),
{
    match b {
        Block::Family { metric, samples } => {
            let name = metric_names()[metric];
            let h = help_line(name, metric_helps()[metric]);
            let t = type_line(name);
            lemma_help_split(name, metric_helps()[metric]);
            lemma_samples_join(name, samples);
            lemma_join_concat(seq![h, t], sample_lines(name, samples));
            assert(seq![h, t].drop_last() =~= seq![h]);
            assert(seq![h].drop_last() =~= Seq::<Seq<char>>::empty());
            assert(join(Seq::<Seq<char>>::empty()) == Seq::<char>::empty());
            assert(seq![h].last() == h);
            assert(Seq::<char>::empty() + h =~= h);
            assert(join(seq![h]) == h);
        },
        Block::Comment { collector, error } => {
            let c = failure_text(collector, error);
            assert(seq![c].drop_last() =~= Seq::<Seq<char>>::empty());
            assert(join(Seq::<Seq<char>>::empty()) == Seq::<char>::empty());
            assert(seq![c].last() == c);
            assert(Seq::<char>::empty() + c =~= c);
            assert(join(seq![c]) == c);
        },
    }
}

proof fn lemma_lines_join(bs: Seq<Block>)
    ensures
        blocks_text(bs) == join(lines_of(bs)),
    decreases bs.len(),
{
    if bs.len() > 0 {
        lemma_lines_join(bs.drop_last());
        lemma_block_join(bs.last());
        lemma_join_concat(lines_of(bs.drop_last()), block_lines(bs.last()));
    }
}

/// A block in which no line break hides: a metric of the table whose
/// labels and values hold none, or a comment whose collector and error hold
/// none.
pub open spec fn clean_block(b: Block) -> bool {
    match b {
        Block::Family { metric, samples } => {
            &&& 0 <= metric < 33
            &&& forall|i: int|
                0 <= i < samples.len() ==> no_newline((#[trigger] samples[i]).1) && forall|k: int|
                    0 <= k < samples[i].0.len() ==> no_newline((#[trigger] samples[i].0[k]).0)
                        && no_newline(samples[i].0[k].1)
        },
        Block::Comment { collector, error } => no_newline(collector) && no_newline(error),
    }
}

proof fn lemma_block_lines_are_lines(b: Block)
    requires
        clean_block(b),
    ensures
        forall|i: int| 0 <= i < block_lines(b).len() ==> is_line(#[trigger] block_lines(b)[i]),
{
    match b {
        Block::Family { metric, samples } => {
            lemma_family_lines(metric, samples);
            let name = metric_names()[metric];
            let ls = block_lines(b);
            assert forall|i: int| 0 <= i < ls.len() implies is_line(#[trigger] ls[i]) by {
                if i >= 2 {
                    assert(ls[i] == sample_text(name, samples[i - 2].0, samples[i - 2].1));
                }
            }
        },
        Block::Comment { collector, error } => {
            lemma_comment_is_line(collector, error);
        },
    }
}

proof fn lemma_lines_are_lines(bs: Seq<Block>)
    requires
        forall|i: int| 0 <= i < bs.len() ==> clean_block(#[trigger] bs[i]),
    ensures
        forall|i: int| 0 <= i < lines_of(bs).len() ==> is_line(#[trigger] lines_of(bs)[i]),
    decreases bs.len(),
{
    if bs.len() > 0 {
        let init = bs.drop_last();
        assert forall|i: int| 0 <= i < init.len() implies clean_block(#[trigger] init[i]) by {
            assert(init[i] == bs[i]);
        }
        lemma_lines_are_lines(init);
        assert(clean_block(bs[bs.len() - 1]));
        lemma_block_lines_are_lines(bs.last());
        let a = lines_of(init);
        let b = block_lines(bs.last());
        assert forall|i: int| 0 <= i < lines_of(bs).len() implies is_line(#[trigger] lines_of(bs)[i]) by {
            if i < a.len() {
                assert(lines_of(bs)[i] == a[i]);
            } else {
                assert(lines_of(bs)[i] == b[i - a.len()]);
            }
        }
    }
}

// ---------------------------------------------------------------- the report

/// What a failed collector reports holds no line break.
pub open spec fn error_clean<T>(r: CheckResult<T>) -> bool {
    r matches CheckResult::Failure { error } ==> no_newline(error@)
}

pub open spec fn host_clean(r: CheckResult<HostReport>) -> bool {
    &&& error_clean(r)
    &&& r matches CheckResult::Success(h) ==> no_newline(h.hostname@) && no_newline(h.os_type@)
        && no_newline(h.kernel_release@) && no_newline(h.arch@)
}

pub open spec fn system_clean(r: CheckResult<SystemGauges>) -> bool {
    &&& error_clean(r)
    &&& r matches CheckResult::Success(s) ==> no_newline(s.uptime_seconds@) && no_newline(
        s.load_avg_1@,
    ) && no_newline(s.load_avg_5@) && no_newline(s.load_avg_15@) && no_newline(s.running_procs@)
        && no_newline(s.total_procs@) && no_newline(s.open_fds@) && no_newline(s.max_fds@)
}

pub open spec fn memory_clean(r: CheckResult<MemoryGauges>) -> bool {
    &&& error_clean(r)
    &&& r matches CheckResult::Success(m) ==> no_newline(m.total_bytes@) && no_newline(
        m.available_bytes@,
    ) && no_newline(m.used_bytes@) && no_newline(m.swap_total_bytes@) && no_newline(
        m.swap_free_bytes@,
    ) && no_newline(m.swap_used_bytes@)
}

pub open spec fn core_clean(c: CoreGauges) -> bool {
    no_newline(c.usage_percent@) && no_newline(c.idle_percent@)
}

pub open spec fn cpu_clean(r: CheckResult<CpuGauges>) -> bool {
    &&& error_clean(r)
    &&& r matches CheckResult::Success(c) ==> no_newline(c.usage_percent@) && no_newline(
        c.user_percent@,
    ) && no_newline(c.system_percent@) && no_newline(c.iowait_percent@) && no_newline(
        c.idle_percent@,
    ) && forall|i: int| 0 <= i < c.cores@.len() ==> core_clean(#[trigger] c.cores@[i])
}

pub open spec fn fs_clean(f: FilesystemGauges) -> bool {
    no_newline(f.mount@) && no_newline(f.size_bytes@) && no_newline(f.used_bytes@) && no_newline(
        f.avail_bytes@,
    )
}

pub open spec fn disk_clean(r: CheckResult<Vec<FilesystemGauges>>) -> bool {
    &&& error_clean(r)
    &&& r matches CheckResult::Success(fs) ==> forall|i: int|
        0 <= i < fs@.len() ==> fs_clean(#[trigger] fs@[i])
}

pub open spec fn interface_clean(f: InterfaceGauges) -> bool {
    &&& no_newline(f.device@)
    &&& no_newline(f.receive_bytes@) && no_newline(f.receive_packets@)
    &&& no_newline(f.receive_errors@) && no_newline(f.receive_drop@)
    &&& no_newline(f.transmit_bytes@) && no_newline(f.transmit_packets@)
    &&& no_newline(f.transmit_errors@) && no_newline(f.transmit_drop@)
}

pub open spec fn network_clean(r: CheckResult<Vec<InterfaceGauges>>) -> bool {
    &&& error_clean(r)
    &&& r matches CheckResult::Success(ifs) ==> forall|i: int|
        0 <= i < ifs@.len() ==> interface_clean(#[trigger] ifs@[i])
}

/// No text that the exposition of `r` copies (a label value, a gauge value
/// or the error of a failed collector) holds a line break.
pub open spec fn report_clean(r: Report) -> bool {
    &&& host_clean(r.host)
    &&& system_clean(r.system)
    &&& memory_clean(r.memory)
    &&& cpu_clean(r.cpu)
    &&& disk_clean(r.disk)
    &&& network_clean(r.network)
}

pub open spec fn all_clean(bs: Seq<Block>) -> bool {
    forall|i: int| 0 <= i < bs.len() ==> clean_block(#[trigger] bs[i])
}

proof fn lemma_clean_concat(a: Seq<Block>, b: Seq<Block>)
    requires
        all_clean(a),
        all_clean(b),
    ensures
        all_clean(a + b),
{
    assert forall|i: int| 0 <= i < (a + b).len() implies clean_block(#[trigger] (a + b)[i]) by {
        if i < a.len() {
            assert((a + b)[i] == a[i]);
        } else {
            assert((a + b)[i] == b[i - a.len()]);
        }
    }
}

proof fn lemma_literal_clean()
    ensures
        no_newline("host"@),
        no_newline("system"@),
        no_newline("memory"@),
        no_newline("cpu"@),
        no_newline("disk"@),
        no_newline("network"@),
        no_newline("hostname"@),
        no_newline("os_type"@),
        no_newline("kernel_release"@),
        no_newline("arch"@),
        no_newline("mountpoint"@),
        no_newline("device"@),
        no_newline("1"@),
{
    reveal_strlit("host");
    reveal_strlit("system");
    reveal_strlit("memory");
    reveal_strlit("cpu");
    reveal_strlit("disk");
    reveal_strlit("network");
    reveal_strlit("hostname");
    reveal_strlit("os_type");
    reveal_strlit("kernel_release");
    reveal_strlit("arch");
    reveal_strlit("mountpoint");
    reveal_strlit("device");
    reveal_strlit("1");
}

/// A metric with one sample is clean where its labels and value are.
proof fn lemma_single_clean(m: int, labels: Seq<(Seq<char>, Seq<char>)>, value: Seq<char>)
    requires
        0 <= m < 33,
        no_newline(value),
        forall|k: int| 0 <= k < labels.len() ==> no_newline((#[trigger] labels[k]).0) && no_newline(labels[k].1),
    ensures
        clean_block(Block::Family { metric: m, samples: seq![(labels, value)] }),
{
    let samples = seq![(labels, value)];
    assert forall|i: int| 0 <= i < samples.len() implies no_newline((#[trigger] samples[i]).1) && forall|k: int|
        0 <= k < samples[i].0.len() ==> no_newline((#[trigger] samples[i].0[k]).0) && no_newline(samples[i].0[k].1) by {
        assert(samples[i] == (labels, value));
    }
}

proof fn lemma_host_clean(r: CheckResult<HostReport>)
    requires
        host_clean(r),
    ensures
        all_clean(host_blocks(r)),
{
    lemma_literal_clean();
    match r {
        CheckResult::Success(h) => {
            let labels = seq![
                ("hostname"@, h.hostname@),
                ("os_type"@, h.os_type@),
                ("kernel_release"@, h.kernel_release@),
                ("arch"@, h.arch@),
            ];
            lemma_single_clean(0, labels, "1"@);
        },
        CheckResult::Failure { error } => {},
    }
}

proof fn lemma_system_clean(r: CheckResult<SystemGauges>)
    requires
        system_clean(r),
    ensures
        all_clean(system_blocks(r)),
{
    lemma_literal_clean();
    match r {
        CheckResult::Success(s) => {
            let e = Seq::<(Seq<char>, Seq<char>)>::empty();
            lemma_single_clean(1, e, s.uptime_seconds@);
            lemma_single_clean(2, e, s.load_avg_1@);
            lemma_single_clean(3, e, s.load_avg_5@);
            lemma_single_clean(4, e, s.load_avg_15@);
            lemma_single_clean(5, e, s.running_procs@);
            lemma_single_clean(6, e, s.total_procs@);
            lemma_single_clean(7, e, s.open_fds@);
            lemma_single_clean(8, e, s.max_fds@);
        },
        CheckResult::Failure { error } => {},
    }
}

proof fn lemma_memory_clean(r: CheckResult<MemoryGauges>)
    requires
        memory_clean(r),
    ensures
        all_clean(memory_blocks(r)),
{
    lemma_literal_clean();
    match r {
        CheckResult::Success(m) => {
            let e = Seq::<(Seq<char>, Seq<char>)>::empty();
            lemma_single_clean(9, e, m.total_bytes@);
            lemma_single_clean(10, e, m.available_bytes@);
            lemma_single_clean(11, e, m.used_bytes@);
            lemma_single_clean(12, e, m.swap_total_bytes@);
            lemma_single_clean(13, e, m.swap_free_bytes@);
            lemma_single_clean(14, e, m.swap_used_bytes@);
        },
        CheckResult::Failure { error } => {},
    }
}

proof fn lemma_cores_clean(cores: Seq<CoreGauges>, m: int, which: CoreGauge)
    requires
        0 <= m < 33,
        forall|i: int| 0 <= i < cores.len() ==> core_clean(#[trigger] cores[i]),
    ensures
        clean_block(Block::Family { metric: m, samples: core_samples(cores, which) }),
{
    reveal_strlit("cpu");
    assert(no_newline("cpu"@));
    let samples = core_samples(cores, which);
    assert forall|i: int| 0 <= i < samples.len() implies no_newline((#[trigger] samples[i]).1) && forall|k: int|
        0 <= k < samples[i].0.len() ==> no_newline((#[trigger] samples[i].0[k]).0) && no_newline(samples[i].0[k].1) by {
        assert(core_clean(cores[i]));
        let d = crate::numbers::decimal(cores[i].core as nat);
        lemma_decimal_value(cores[i].core as nat);
        assert forall|j: int| 0 <= j < d.len() implies d[j] != '\n' by {
            assert(is_digit(d[j]));
        }
        assert(samples[i].0 == seq![("cpu"@, d)]);
    }
}

proof fn lemma_cpu_clean(r: CheckResult<CpuGauges>)
    requires
        cpu_clean(r),
    ensures
        all_clean(cpu_blocks(r)),
{
    lemma_literal_clean();
    match r {
        CheckResult::Success(c) => {
            let e = Seq::<(Seq<char>, Seq<char>)>::empty();
            lemma_single_clean(15, e, c.usage_percent@);
            lemma_single_clean(16, e, c.user_percent@);
            lemma_single_clean(17, e, c.system_percent@);
            lemma_single_clean(18, e, c.iowait_percent@);
            lemma_single_clean(19, e, c.idle_percent@);
            lemma_cores_clean(c.cores@, 20, CoreGauge::Usage);
            lemma_cores_clean(c.cores@, 21, CoreGauge::Idle);
        },
        CheckResult::Failure { error } => {},
    }
}

proof fn lemma_filesystems_clean(fs: Seq<FilesystemGauges>, m: int, which: FsGauge)
    requires
        0 <= m < 33,
        forall|i: int| 0 <= i < fs.len() ==> fs_clean(#[trigger] fs[i]),
    ensures
        clean_block(Block::Family { metric: m, samples: fs_samples(fs, which) }),
{
    lemma_literal_clean();
    let samples = fs_samples(fs, which);
    assert forall|i: int| 0 <= i < samples.len() implies no_newline((#[trigger] samples[i]).1) && forall|k: int|
        0 <= k < samples[i].0.len() ==> no_newline((#[trigger] samples[i].0[k]).0) && no_newline(samples[i].0[k].1) by {
        assert(fs_clean(fs[i]));
        assert(samples[i].0 == seq![("mountpoint"@, fs[i].mount@)]);
    }
}

proof fn lemma_disk_clean(r: CheckResult<Vec<FilesystemGauges>>)
    requires
        disk_clean(r),
    ensures
        all_clean(disk_blocks(r)),
{
    lemma_literal_clean();
    match r {
        CheckResult::Success(fs) => {
            lemma_filesystems_clean(fs@, 22, FsGauge::Size);
            lemma_filesystems_clean(fs@, 23, FsGauge::Used);
            lemma_filesystems_clean(fs@, 24, FsGauge::Avail);
        },
        CheckResult::Failure { error } => {},
    }
}

proof fn lemma_interfaces_clean(ifs: Seq<InterfaceGauges>, m: int, which: NetCounter)
    requires
        0 <= m < 33,
        forall|i: int| 0 <= i < ifs.len() ==> interface_clean(#[trigger] ifs[i]),
    ensures
        clean_block(Block::Family { metric: m, samples: net_samples(ifs, which) }),
{
    lemma_literal_clean();
    let samples = net_samples(ifs, which);
    assert forall|i: int| 0 <= i < samples.len() implies no_newline((#[trigger] samples[i]).1) && forall|k: int|
        0 <= k < samples[i].0.len() ==> no_newline((#[trigger] samples[i].0[k]).0) && no_newline(samples[i].0[k].1) by {
        assert(interface_clean(ifs[i]));
        assert(samples[i].0 == seq![("device"@, ifs[i].device@)]);
    }
}

proof fn lemma_network_clean(r: CheckResult<Vec<InterfaceGauges>>)
    requires
        network_clean(r),
    ensures
        all_clean(network_blocks(r)),
{
    lemma_literal_clean();
    match r {
        CheckResult::Success(ifs) => {
            lemma_interfaces_clean(ifs@, 25, NetCounter::ReceiveBytes);
            lemma_interfaces_clean(ifs@, 26, NetCounter::ReceivePackets);
            lemma_interfaces_clean(ifs@, 27, NetCounter::ReceiveErrors);
            lemma_interfaces_clean(ifs@, 28, NetCounter::ReceiveDrop);
            lemma_interfaces_clean(ifs@, 29, NetCounter::TransmitBytes);
            lemma_interfaces_clean(ifs@, 30, NetCounter::TransmitPackets);
            lemma_interfaces_clean(ifs@, 31, NetCounter::TransmitErrors);
            lemma_interfaces_clean(ifs@, 32, NetCounter::TransmitDrop);
        },
        CheckResult::Failure { error } => {},
    }
}

/// Where no label value, gauge value or error text of `r` holds a line
/// break, the exposition is a sequence of whole lines: the lines of its
/// blocks in order, where a metric's lines are its `# HELP` line, its
/// `# TYPE` line and one line per sample, and a failed collector's line is
/// its comment. With [`crate::metrics::lemma_layout`], which gives the
/// blocks their fixed order and each metric a name no other block has,
/// every metric of the text has exactly one `# HELP` line, directly
/// followed by its `# TYPE` line, directly followed by all its samples.
pub proof fn lemma_exposition_lines(r: Report)
    requires
        report_clean(r),
    ensures
        exposition(r) == join(report_lines(r)),
        forall|i: int| 0 <= i < report_lines(r).len() ==> is_line(#[trigger] report_lines(r)[i]),
{
    lemma_layout(r);
    lemma_lines_join(report_blocks(r));
    lemma_host_clean(r.host);
    lemma_system_clean(r.system);
    lemma_memory_clean(r.memory);
    lemma_cpu_clean(r.cpu);
    lemma_disk_clean(r.disk);
    lemma_network_clean(r.network);
    let a = host_blocks(r.host);
    let b = a + system_blocks(r.system);
    let c = b + memory_blocks(r.memory);
    let d = c + cpu_blocks(r.cpu);
    let e = d + disk_blocks(r.disk);
    lemma_clean_concat(a, system_blocks(r.system));
    lemma_clean_concat(b, memory_blocks(r.memory));
    lemma_clean_concat(c, cpu_blocks(r.cpu));
    lemma_clean_concat(d, disk_blocks(r.disk));
    lemma_clean_concat(e, network_blocks(r.network));
    assert(e + network_blocks(r.network) == report_blocks(r));
    lemma_lines_are_lines(report_blocks(r));
}

} // verus!
