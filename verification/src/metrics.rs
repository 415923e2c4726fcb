//! The Prometheus text exposition format: every metric is a gauge with a
//! `# HELP` and a `# TYPE` line, followed by its samples.
//!
//! Gauge values arrive as text (see [`crate::Report`]); everything else,
//! metric names, help texts, labels and the order of metrics, is decided
//! here.

use vstd::prelude::*;
use crate::diagnostics::host::HostReport;
use crate::numbers::decimal;
use crate::text::{has_prefix, push_char};
use crate::{CheckResult, Report};

verus! {

/// The system gauges.
#[derive(Debug)]
pub struct SystemGauges {
    pub uptime_seconds: String,
    pub load_avg_1: String,
    pub load_avg_5: String,
    pub load_avg_15: String,
    pub running_procs: String,
    pub total_procs: String,
    pub open_fds: String,
    pub max_fds: String,
}

/// The memory gauges, in bytes.
#[derive(Debug)]
pub struct MemoryGauges {
    pub total_bytes: String,
    pub available_bytes: String,
    pub used_bytes: String,
    pub swap_total_bytes: String,
    pub swap_free_bytes: String,
    pub swap_used_bytes: String,
}

/// The gauges of one core, in percent.
#[derive(Debug)]
pub struct CoreGauges {
    pub core: usize,
    pub usage_percent: String,
    pub idle_percent: String,
}

/// The CPU gauges, in percent.
#[derive(Debug)]
pub struct CpuGauges {
    pub usage_percent: String,
    pub user_percent: String,
    pub system_percent: String,
    pub iowait_percent: String,
    pub idle_percent: String,
    pub cores: Vec<CoreGauges>,
}

/// The gauges of one filesystem, in bytes.
#[derive(Debug)]
pub struct FilesystemGauges {
    pub mount: String,
    pub size_bytes: String,
    pub used_bytes: String,
    pub avail_bytes: String,
}

/// The counters of one network interface.
#[derive(Debug)]
pub struct InterfaceGauges {
    pub device: String,
    pub receive_bytes: String,
    pub receive_packets: String,
    pub receive_errors: String,
    pub receive_drop: String,
    pub transmit_bytes: String,
    pub transmit_packets: String,
    pub transmit_errors: String,
    pub transmit_drop: String,
}

// ---------------------------------------------------------------- lines

/// The `# HELP` and `# TYPE` lines of a gauge.
pub open spec fn help_text(name: Seq<char>, help: Seq<char>) -> Seq<char> {
    "# HELP "@ + name + " "@ + help + "\n# TYPE "@ + name + " gauge\n"@
}

pub type Labels = Seq<(Seq<char>, Seq<char>)>;

/// `key="value"`.
pub open spec fn label_text(l: (Seq<char>, Seq<char>)) -> Seq<char> {
    l.0 + "=\""@ + l.1 + "\""@
}

/// The labels, separated by commas.
pub open spec fn labels_text(labels: Labels) -> Seq<char>
    decreases labels.len(),
{
    if labels.len() == 0 {
        seq![]
    } else if labels.len() == 1 {
        label_text(labels[0])
    } else {
        labels_text(labels.drop_last()) + ","@ + label_text(labels.last())
    }
}

/// A sample line: the name, the labels in braces where there are any, and
/// the value.
pub open spec fn sample_text(name: Seq<char>, labels: Labels, value: Seq<char>) -> Seq<char> {
    if labels.len() == 0 {
        name + " "@ + value + "\n"@
    } else {
        name + "{"@ + labels_text(labels) + "} "@ + value + "\n"@
    }
}

/// A gauge with a single sample.
pub open spec fn gauge_text(name: Seq<char>, help: Seq<char>, labels: Labels, value: Seq<char>) -> Seq<
    char,
> {
    help_text(name, help) + sample_text(name, labels, value)
}

pub open spec fn label_views(labels: Seq<(&str, &str)>) -> Labels {
    labels.map_values(|l: (&str, &str)| (l.0@, l.1@))
}

/// Appends the `# HELP` and `# TYPE` lines of a gauge.
pub fn hdr(out: &mut String, name: &str, help: &str)
    ensures
        final(out)@ == old(out)@ + help_text(name@, help@),
{
    out.append("# HELP ");
    out.append(name);
    out.append(" ");
    out.append(help);
    out.append("\n# TYPE ");
    out.append(name);
    out.append(" gauge\n");
}

/// Appends a sample line.
pub fn line(out: &mut String, name: &str, labels: &[(&str, &str)], value: &str)
    ensures
        final(out)@ == old(out)@ + sample_text(name@, label_views(labels@), value@),
{
    let ghost start = out@;
    let ghost lv = label_views(labels@);
    if labels.len() == 0 {
        out.append(name);
        out.append(" ");
        out.append(value);
        out.append("\n");
        assert(out@ =~= start + sample_text(name@, lv, value@));
    } else {
        out.append(name);
        out.append("{");
        let ghost before = out@;
        let mut i: usize = 0;
        while i < labels.len()
            invariant
                lv == label_views(labels@),
                labels@.len() > 0,
                i <= labels@.len(),
                out@ == before + labels_text(lv.subrange(0, i as int)),
            decreases labels@.len() - i,
        {
            let (k, v) = labels[i];
            let ghost prev = out@;
            if i > 0 {
                out.append(",");
            }
            out.append(k);
            out.append("=\"");
            out.append(v);
            out.append("\"");
            let ghost sub = lv.subrange(0, i + 1);
            assert(sub.drop_last() =~= lv.subrange(0, i as int));
            assert(sub.last() == (k@, v@));
            if i == 0 {
                assert(labels_text(lv.subrange(0, 0)) =~= Seq::<char>::empty());
                assert(out@ =~= before + labels_text(sub));
            } else {
                assert(out@ =~= before + labels_text(sub));
            }
            i = i + 1;
        }
        assert(lv.subrange(0, labels@.len() as int) =~= lv);
        out.append("} ");
        out.append(value);
        out.append("\n");
        assert(out@ =~= start + sample_text(name@, lv, value@));
    }
}

/// Appends a gauge with a single sample.
pub fn g(out: &mut String, name: &str, help: &str, labels: &[(&str, &str)], value: &str)
    ensures
        final(out)@ == old(out)@ + gauge_text(name@, help@, label_views(labels@), value@),
{
    let ghost start = out@;
    hdr(out, name, help);
    line(out, name, labels, value);
    assert(out@ =~= start + gauge_text(name@, help@, label_views(labels@), value@));
}


// ---------------------------------------------------------------- families

pub type Sample = (Labels, Seq<char>);

/// The sample lines of a gauge, in order.
pub open spec fn samples_text(name: Seq<char>, samples: Seq<Sample>) -> Seq<char>
    decreases samples.len(),
{
    if samples.len() == 0 {
        seq![]
    } else {
        samples_text(name, samples.drop_last()) + sample_text(
            name,
            samples.last().0,
            samples.last().1,
        )
    }
}

/// A gauge with any number of samples: its `# HELP` and `# TYPE` lines,
/// then one line per sample.
pub open spec fn family_text(name: Seq<char>, help: Seq<char>, samples: Seq<Sample>) -> Seq<char> {
    help_text(name, help) + samples_text(name, samples)
}

/// Appends the decimal notation of `n`.
pub fn push_decimal(out: &mut String, n: usize)
    ensures
        final(out)@ == old(out)@ + decimal(n as nat),
    decreases n,
{
    let digits = ['0', '1', '2', '3', '4', '5', '6', '7', '8', '9'];
    assert(digits@ =~= seq!['0', '1', '2', '3', '4', '5', '6', '7', '8', '9']);
    let ghost start = out@;
    if n >= 10 {
        push_decimal(out, n / 10);
    }
    push_char(out, digits[n % 10]);
    assert(out@ =~= start + decimal(n as nat));
}

/// The gauges of a filesystem.
#[derive(Clone, Copy, Debug, PartialEq, Eq)]
pub enum FsGauge {
    Size,
    Used,
    Avail,
}

pub open spec fn fs_value(f: FilesystemGauges, which: FsGauge) -> Seq<char> {
    match which {
        FsGauge::Size => f.size_bytes@,
        FsGauge::Used => f.used_bytes@,
        FsGauge::Avail => f.avail_bytes@,
    }
}

/// One sample per filesystem, labelled with its mount point.
pub open spec fn fs_samples(fs: Seq<FilesystemGauges>, which: FsGauge) -> Seq<Sample> {
    fs.map_values(|f: FilesystemGauges| (seq![("mountpoint"@, f.mount@)], fs_value(f, which)))
}

fn fs_gauge(out: &mut String, name: &str, help: &str, fs: &Vec<FilesystemGauges>, which: FsGauge)
    ensures
        final(out)@ == old(out)@ + family_text(name@, help@, fs_samples(fs@, which)),
{
    let ghost start = out@;
    let ghost samples = fs_samples(fs@, which);
    hdr(out, name, help);
    let mut i: usize = 0;
    while i < fs.len()
        invariant
            samples == fs_samples(fs@, which),
            i <= fs@.len(),
            out@ == start + help_text(name@, help@) + samples_text(name@, samples.subrange(0, i as int)),
        decreases fs@.len() - i,
    {
        let f = &fs[i];
        let value = match which {
            FsGauge::Size => f.size_bytes.as_str(),
            FsGauge::Used => f.used_bytes.as_str(),
            FsGauge::Avail => f.avail_bytes.as_str(),
        };
        let labels = [("mountpoint", f.mount.as_str())];
        assert(label_views(labels@) =~= seq![("mountpoint"@, f.mount@)]);
        line(out, name, labels.as_slice(), value);
        let ghost sub = samples.subrange(0, i + 1);
        assert(sub.drop_last() =~= samples.subrange(0, i as int));
        assert(sub.last() == samples[i as int]);
        i = i + 1;
    }
    assert(samples.subrange(0, fs@.len() as int) =~= samples);
}

/// The counters of an interface.
#[derive(Clone, Copy, Debug, PartialEq, Eq)]
pub enum NetCounter {
    ReceiveBytes,
    ReceivePackets,
    ReceiveErrors,
    ReceiveDrop,
    TransmitBytes,
    TransmitPackets,
    TransmitErrors,
    TransmitDrop,
}

pub open spec fn net_value(i: InterfaceGauges, which: NetCounter) -> Seq<char> {
    match which {
        NetCounter::ReceiveBytes => i.receive_bytes@,
        NetCounter::ReceivePackets => i.receive_packets@,
        NetCounter::ReceiveErrors => i.receive_errors@,
        NetCounter::ReceiveDrop => i.receive_drop@,
        NetCounter::TransmitBytes => i.transmit_bytes@,
        NetCounter::TransmitPackets => i.transmit_packets@,
        NetCounter::TransmitErrors => i.transmit_errors@,
        NetCounter::TransmitDrop => i.transmit_drop@,
    }
}

/// One sample per interface, labelled with its name.
pub open spec fn net_samples(ifs: Seq<InterfaceGauges>, which: NetCounter) -> Seq<Sample> {
    ifs.map_values(|i: InterfaceGauges| (seq![("device"@, i.device@)], net_value(i, which)))
}

fn net_gauge(
    out: &mut String,
    name: &str,
    help: &str,
    ifs: &Vec<InterfaceGauges>,
    which: NetCounter,
)
    ensures
        final(out)@ == old(out)@ + family_text(name@, help@, net_samples(ifs@, which)),
{
    let ghost start = out@;
    let ghost samples = net_samples(ifs@, which);
    hdr(out, name, help);
    let mut i: usize = 0;
    while i < ifs.len()
        invariant
            samples == net_samples(ifs@, which),
            i <= ifs@.len(),
            out@ == start + help_text(name@, help@) + samples_text(name@, samples.subrange(0, i as int)),
        decreases ifs@.len() - i,
    {
        let f = &ifs[i];
        let value = match which {
            NetCounter::ReceiveBytes => f.receive_bytes.as_str(),
            NetCounter::ReceivePackets => f.receive_packets.as_str(),
            NetCounter::ReceiveErrors => f.receive_errors.as_str(),
            NetCounter::ReceiveDrop => f.receive_drop.as_str(),
            NetCounter::TransmitBytes => f.transmit_bytes.as_str(),
            NetCounter::TransmitPackets => f.transmit_packets.as_str(),
            NetCounter::TransmitErrors => f.transmit_errors.as_str(),
            NetCounter::TransmitDrop => f.transmit_drop.as_str(),
        };
        let labels = [("device", f.device.as_str())];
        assert(label_views(labels@) =~= seq![("device"@, f.device@)]);
        line(out, name, labels.as_slice(), value);
        let ghost sub = samples.subrange(0, i + 1);
        assert(sub.drop_last() =~= samples.subrange(0, i as int));
        assert(sub.last() == samples[i as int]);
        i = i + 1;
    }
    assert(samples.subrange(0, ifs@.len() as int) =~= samples);
}

/// The gauges of a core.
#[derive(Clone, Copy, Debug, PartialEq, Eq)]
pub enum CoreGauge {
    Usage,
    Idle,
}

pub open spec fn core_value(c: CoreGauges, which: CoreGauge) -> Seq<char> {
    match which {
        CoreGauge::Usage => c.usage_percent@,
        CoreGauge::Idle => c.idle_percent@,
    }
}

/// One sample per core, labelled with its number.
pub open spec fn core_samples(cores: Seq<CoreGauges>, which: CoreGauge) -> Seq<Sample> {
    cores.map_values(|c: CoreGauges| (seq![("cpu"@, decimal(c.core as nat))], core_value(c, which)))
}

fn core_gauge(out: &mut String, name: &str, help: &str, cores: &Vec<CoreGauges>, which: CoreGauge)
    ensures
        final(out)@ == old(out)@ + family_text(name@, help@, core_samples(cores@, which)),
{
    let ghost start = out@;
    let ghost samples = core_samples(cores@, which);
    hdr(out, name, help);
    let mut i: usize = 0;
    while i < cores.len()
        invariant
            samples == core_samples(cores@, which),
            i <= cores@.len(),
            out@ == start + help_text(name@, help@) + samples_text(name@, samples.subrange(0, i as int)),
        decreases cores@.len() - i,
    {
        let c = &cores[i];
        let value = match which {
            CoreGauge::Usage => c.usage_percent.as_str(),
            CoreGauge::Idle => c.idle_percent.as_str(),
        };
        let mut number = String::new();
        push_decimal(&mut number, c.core);
        let labels = [("cpu", number.as_str())];
        assert(label_views(labels@) =~= seq![("cpu"@, decimal(c.core as nat))]);
        line(out, name, labels.as_slice(), value);
        let ghost sub = samples.subrange(0, i + 1);
        assert(sub.drop_last() =~= samples.subrange(0, i as int));
        assert(sub.last() == samples[i as int]);
        i = i + 1;
    }
    assert(samples.subrange(0, cores@.len() as int) =~= samples);
}


// ---------------------------------------------------------------- the report

/// The comment that stands for the metrics of a collector that failed.
pub open spec fn failure_text(collector: Seq<char>, error: Seq<char>) -> Seq<char> {
    "# collector error: "@ + collector + ": "@ + error + "\n"@
}

pub open spec fn host_text(h: HostReport) -> Seq<char> {
    gauge_text(
        "node_uname_info"@,
        "System information"@,
        seq![
            ("hostname"@, h.hostname@),
            ("os_type"@, h.os_type@),
            ("kernel_release"@, h.kernel_release@),
            ("arch"@, h.arch@),
        ],
        "1"@,
    )
}

pub open spec fn system_text(s: SystemGauges) -> Seq<char> {
    gauge_text("node_uptime_seconds"@, "System uptime in seconds"@, seq![], s.uptime_seconds@)
        + gauge_text("node_load1"@, "1 minute load average"@, seq![], s.load_avg_1@) + gauge_text(
        "node_load5"@,
        "5 minute load average"@,
        seq![],
        s.load_avg_5@,
    ) + gauge_text("node_load15"@, "15 minute load average"@, seq![], s.load_avg_15@)
        + gauge_text("node_procs_running"@, "Running processes"@, seq![], s.running_procs@)
        + gauge_text("node_procs_total"@, "Total processes"@, seq![], s.total_procs@) + gauge_text(
        "node_filefd_allocated"@,
        "Open file descriptors"@,
        seq![],
        s.open_fds@,
    ) + gauge_text("node_filefd_maximum"@, "Maximum file descriptors"@, seq![], s.max_fds@)
}

pub open spec fn memory_text(m: MemoryGauges) -> Seq<char> {
    gauge_text("node_memory_total_bytes"@, "Total memory bytes"@, seq![], m.total_bytes@)
        + gauge_text(
        "node_memory_available_bytes"@,
        "Available memory bytes"@,
        seq![],
        m.available_bytes@,
    ) + gauge_text("node_memory_used_bytes"@, "Used memory bytes"@, seq![], m.used_bytes@)
        + gauge_text("node_swap_total_bytes"@, "Total swap bytes"@, seq![], m.swap_total_bytes@)
        + gauge_text("node_swap_free_bytes"@, "Free swap bytes"@, seq![], m.swap_free_bytes@)
        + gauge_text("node_swap_used_bytes"@, "Used swap bytes"@, seq![], m.swap_used_bytes@)
}

pub open spec fn cpu_text(c: CpuGauges) -> Seq<char> {
    gauge_text("node_cpu_usage_percent"@, "CPU usage percent"@, seq![], c.usage_percent@)
        + gauge_text("node_cpu_user_percent"@, "CPU user time percent"@, seq![], c.user_percent@)
        + gauge_text(
        "node_cpu_system_percent"@,
        "CPU system time percent"@,
        seq![],
        c.system_percent@,
    ) + gauge_text("node_cpu_iowait_percent"@, "CPU iowait percent"@, seq![], c.iowait_percent@)
        + gauge_text("node_cpu_idle_percent"@, "CPU idle percent"@, seq![], c.idle_percent@)
        + family_text(
        "node_cpu_core_usage_percent"@,
        "Per-core CPU usage percent"@,
        core_samples(c.cores@, CoreGauge::Usage),
    ) + family_text(
        "node_cpu_core_idle_percent"@,
        "Per-core CPU idle percent"@,
        core_samples(c.cores@, CoreGauge::Idle),
    )
}

pub open spec fn disk_text(fs: Seq<FilesystemGauges>) -> Seq<char> {
    family_text("node_filesystem_size_bytes"@, "Filesystem size in bytes"@, fs_samples(fs, FsGauge::Size))
        + family_text(
        "node_filesystem_used_bytes"@,
        "Filesystem used bytes"@,
        fs_samples(fs, FsGauge::Used),
    ) + family_text(
        "node_filesystem_avail_bytes"@,
        "Filesystem available bytes"@,
        fs_samples(fs, FsGauge::Avail),
    )
}

pub open spec fn network_text(ifs: Seq<InterfaceGauges>) -> Seq<char> {
    family_text(
        "node_network_receive_bytes_total"@,
        "Bytes received"@,
        net_samples(ifs, NetCounter::ReceiveBytes),
    ) + family_text(
        "node_network_receive_packets_total"@,
        "Packets received"@,
        net_samples(ifs, NetCounter::ReceivePackets),
    ) + family_text(
        "node_network_receive_errors_total"@,
        "Receive errors"@,
        net_samples(ifs, NetCounter::ReceiveErrors),
    ) + family_text(
        "node_network_receive_drop_total"@,
        "Receive drops"@,
        net_samples(ifs, NetCounter::ReceiveDrop),
    ) + family_text(
        "node_network_transmit_bytes_total"@,
        "Bytes transmitted"@,
        net_samples(ifs, NetCounter::TransmitBytes),
    ) + family_text(
        "node_network_transmit_packets_total"@,
        "Packets transmitted"@,
        net_samples(ifs, NetCounter::TransmitPackets),
    ) + family_text(
        "node_network_transmit_errors_total"@,
        "Transmit errors"@,
        net_samples(ifs, NetCounter::TransmitErrors),
    ) + family_text(
        "node_network_transmit_drop_total"@,
        "Transmit drops"@,
        net_samples(ifs, NetCounter::TransmitDrop),
    )
}

/// The text of one collector: its metrics, or the failure comment.
pub open spec fn section<T>(r: CheckResult<T>, collector: Seq<char>, body: spec_fn(T) -> Seq<char>) -> Seq<
    char,
> {
    match r {
        CheckResult::Success(x) => body(x),
        CheckResult::Failure { error } => failure_text(collector, error@),
    }
}

pub open spec fn host_section(r: CheckResult<HostReport>) -> Seq<char> {
    section(r, "host"@, |h: HostReport| host_text(h))
}

pub open spec fn system_section(r: CheckResult<SystemGauges>) -> Seq<char> {
    section(r, "system"@, |s: SystemGauges| system_text(s))
}

pub open spec fn memory_section(r: CheckResult<MemoryGauges>) -> Seq<char> {
    section(r, "memory"@, |m: MemoryGauges| memory_text(m))
}

pub open spec fn cpu_section(r: CheckResult<CpuGauges>) -> Seq<char> {
    section(r, "cpu"@, |c: CpuGauges| cpu_text(c))
}

pub open spec fn disk_section(r: CheckResult<Vec<FilesystemGauges>>) -> Seq<char> {
    section(r, "disk"@, |fs: Vec<FilesystemGauges>| disk_text(fs@))
}

pub open spec fn network_section(r: CheckResult<Vec<InterfaceGauges>>) -> Seq<char> {
    section(r, "network"@, |ifs: Vec<InterfaceGauges>| network_text(ifs@))
}

/// The exposition of a report: the host, system, memory, cpu, disk and
/// network sections, in that order, each holding its collector's metrics
/// or, where the collector failed, a comment that says so.
pub open spec fn exposition(r: Report) -> Seq<char> {
    host_section(r.host) + system_section(r.system) + memory_section(r.memory) + cpu_section(r.cpu)
        + disk_section(r.disk) + network_section(r.network)
}

fn failure(out: &mut String, collector: &str, error: &String)
    ensures
        final(out)@ == old(out)@ + failure_text(collector@, error@),
{
    let ghost start = out@;
    out.append("# collector error: ");
    out.append(collector);
    out.append(": ");
    out.append(error.as_str());
    out.append("\n");
    assert(out@ =~= start + failure_text(collector@, error@));
}

fn host_part(out: &mut String, r: &CheckResult<HostReport>)
    ensures
        final(out)@ == old(out)@ + host_section(*r),
{
    match r {
        CheckResult::Success(h) => {
            let labels = [
                ("hostname", h.hostname.as_str()),
                ("os_type", h.os_type.as_str()),
                ("kernel_release", h.kernel_release.as_str()),
                ("arch", h.arch.as_str()),
            ];
            assert(label_views(labels@) =~= seq![
                ("hostname"@, h.hostname@),
                ("os_type"@, h.os_type@),
                ("kernel_release"@, h.kernel_release@),
                ("arch"@, h.arch@),
            ]);
            g(out, "node_uname_info", "System information", labels.as_slice(), "1");
        },
        CheckResult::Failure { error } => failure(out, "host", error),
    }
}

fn system_part(out: &mut String, r: &CheckResult<SystemGauges>)
    ensures
        final(out)@ == old(out)@ + system_section(*r),
{
    let ghost start = out@;
    match r {
        CheckResult::Success(s) => {
            let none: [(&str, &str); 0] = [];
            assert(label_views(none@) =~= Seq::<(Seq<char>, Seq<char>)>::empty());
            g(out, "node_uptime_seconds", "System uptime in seconds", none.as_slice(), s.uptime_seconds.as_str());
            g(out, "node_load1", "1 minute load average", none.as_slice(), s.load_avg_1.as_str());
            g(out, "node_load5", "5 minute load average", none.as_slice(), s.load_avg_5.as_str());
            g(out, "node_load15", "15 minute load average", none.as_slice(), s.load_avg_15.as_str());
            g(out, "node_procs_running", "Running processes", none.as_slice(), s.running_procs.as_str());
            g(out, "node_procs_total", "Total processes", none.as_slice(), s.total_procs.as_str());
            g(out, "node_filefd_allocated", "Open file descriptors", none.as_slice(), s.open_fds.as_str());
            g(out, "node_filefd_maximum", "Maximum file descriptors", none.as_slice(), s.max_fds.as_str());
            assert(out@ =~= start + system_text(*s));
        },
        CheckResult::Failure { error } => failure(out, "system", error),
    }
}

fn memory_part(out: &mut String, r: &CheckResult<MemoryGauges>)
    ensures
        final(out)@ == old(out)@ + memory_section(*r),
{
    let ghost start = out@;
    match r {
        CheckResult::Success(m) => {
            let none: [(&str, &str); 0] = [];
            assert(label_views(none@) =~= Seq::<(Seq<char>, Seq<char>)>::empty());
            g(out, "node_memory_total_bytes", "Total memory bytes", none.as_slice(), m.total_bytes.as_str());
            g(out, "node_memory_available_bytes", "Available memory bytes", none.as_slice(), m.available_bytes.as_str());
            g(out, "node_memory_used_bytes", "Used memory bytes", none.as_slice(), m.used_bytes.as_str());
            g(out, "node_swap_total_bytes", "Total swap bytes", none.as_slice(), m.swap_total_bytes.as_str());
            g(out, "node_swap_free_bytes", "Free swap bytes", none.as_slice(), m.swap_free_bytes.as_str());
            g(out, "node_swap_used_bytes", "Used swap bytes", none.as_slice(), m.swap_used_bytes.as_str());
            assert(out@ =~= start + memory_text(*m));
        },
        CheckResult::Failure { error } => failure(out, "memory", error),
    }
}

fn cpu_part(out: &mut String, r: &CheckResult<CpuGauges>)
    ensures
        final(out)@ == old(out)@ + cpu_section(*r),
{
    let ghost start = out@;
    match r {
        CheckResult::Success(c) => {
            let none: [(&str, &str); 0] = [];
            assert(label_views(none@) =~= Seq::<(Seq<char>, Seq<char>)>::empty());
            g(out, "node_cpu_usage_percent", "CPU usage percent", none.as_slice(), c.usage_percent.as_str());
            g(out, "node_cpu_user_percent", "CPU user time percent", none.as_slice(), c.user_percent.as_str());
            g(out, "node_cpu_system_percent", "CPU system time percent", none.as_slice(), c.system_percent.as_str());
            g(out, "node_cpu_iowait_percent", "CPU iowait percent", none.as_slice(), c.iowait_percent.as_str());
            g(out, "node_cpu_idle_percent", "CPU idle percent", none.as_slice(), c.idle_percent.as_str());
            core_gauge(out, "node_cpu_core_usage_percent", "Per-core CPU usage percent", &c.cores, CoreGauge::Usage);
            core_gauge(out, "node_cpu_core_idle_percent", "Per-core CPU idle percent", &c.cores, CoreGauge::Idle);
            assert(out@ =~= start + cpu_text(*c));
        },
        CheckResult::Failure { error } => failure(out, "cpu", error),
    }
}

fn disk_part(out: &mut String, r: &CheckResult<Vec<FilesystemGauges>>)
    ensures
        final(out)@ == old(out)@ + disk_section(*r),
{
    let ghost start = out@;
    match r {
        CheckResult::Success(fs) => {
            fs_gauge(out, "node_filesystem_size_bytes", "Filesystem size in bytes", fs, FsGauge::Size);
            fs_gauge(out, "node_filesystem_used_bytes", "Filesystem used bytes", fs, FsGauge::Used);
            fs_gauge(out, "node_filesystem_avail_bytes", "Filesystem available bytes", fs, FsGauge::Avail);
            assert(out@ =~= start + disk_text(fs@));
        },
        CheckResult::Failure { error } => failure(out, "disk", error),
    }
}

fn network_part(out: &mut String, r: &CheckResult<Vec<InterfaceGauges>>)
    ensures
        final(out)@ == old(out)@ + network_section(*r),
{
    let ghost start = out@;
    match r {
        CheckResult::Success(ifs) => {
            net_gauge(out, "node_network_receive_bytes_total", "Bytes received", ifs, NetCounter::ReceiveBytes);
            net_gauge(out, "node_network_receive_packets_total", "Packets received", ifs, NetCounter::ReceivePackets);
            net_gauge(out, "node_network_receive_errors_total", "Receive errors", ifs, NetCounter::ReceiveErrors);
            net_gauge(out, "node_network_receive_drop_total", "Receive drops", ifs, NetCounter::ReceiveDrop);
            net_gauge(out, "node_network_transmit_bytes_total", "Bytes transmitted", ifs, NetCounter::TransmitBytes);
            net_gauge(out, "node_network_transmit_packets_total", "Packets transmitted", ifs, NetCounter::TransmitPackets);
            net_gauge(out, "node_network_transmit_errors_total", "Transmit errors", ifs, NetCounter::TransmitErrors);
            net_gauge(out, "node_network_transmit_drop_total", "Transmit drops", ifs, NetCounter::TransmitDrop);
            assert(out@ =~= start + network_text(ifs@));
        },
        CheckResult::Failure { error } => failure(out, "network", error),
    }
}

/// A failed collector leaves a comment that names it and its error in the
/// place of its metrics, and leaves the text of every other collector as it
/// would be had it succeeded: the exposition of `b` is that of `a`, except
/// that each collector that failed in `b` but not in `a` has its comment in
/// place of `a`'s metrics.
pub proof fn lemma_failure_isolated(a: Report, b: Report)
    requires
        b.host == a.host || b.host is Failure,
        b.system == a.system || b.system is Failure,
        b.memory == a.memory || b.memory is Failure,
        b.cpu == a.cpu || b.cpu is Failure,
        b.disk == a.disk || b.disk is Failure,
        b.network == a.network || b.network is Failure,
    ensures
        exposition(b) == (if b.host == a.host { host_section(a.host) } else { failure_text("host"@, b.host->error@) })
            + (if b.system == a.system { system_section(a.system) } else { failure_text("system"@, b.system->error@) })
            + (if b.memory == a.memory { memory_section(a.memory) } else { failure_text("memory"@, b.memory->error@) })
            + (if b.cpu == a.cpu { cpu_section(a.cpu) } else { failure_text("cpu"@, b.cpu->error@) })
            + (if b.disk == a.disk { disk_section(a.disk) } else { failure_text("disk"@, b.disk->error@) })
            + (if b.network == a.network { network_section(a.network) } else { failure_text("network"@, b.network->error@) }),
{
}

/// Renders `report` in the Prometheus text exposition format: see
/// [`exposition`].
pub fn format(report: Report) -> (out: String)
    ensures
        out@ == exposition(report),
{
    let mut out = String::new();
    host_part(&mut out, &report.host);
    system_part(&mut out, &report.system);
    memory_part(&mut out, &report.memory);
    cpu_part(&mut out, &report.cpu);
    disk_part(&mut out, &report.disk);
    network_part(&mut out, &report.network);
    assert(out@ =~= exposition(report));
    out
}


// ---------------------------------------------------------------- layout

/// The metric names of the exposition, in the order it writes them.
pub open spec fn metric_names() -> Seq<Seq<char>> {
    seq![
        "node_uname_info"@,
        "node_uptime_seconds"@,
        "node_load1"@,
        "node_load5"@,
        "node_load15"@,
        "node_procs_running"@,
        "node_procs_total"@,
        "node_filefd_allocated"@,
        "node_filefd_maximum"@,
        "node_memory_total_bytes"@,
        "node_memory_available_bytes"@,
        "node_memory_used_bytes"@,
        "node_swap_total_bytes"@,
        "node_swap_free_bytes"@,
        "node_swap_used_bytes"@,
        "node_cpu_usage_percent"@,
        "node_cpu_user_percent"@,
        "node_cpu_system_percent"@,
        "node_cpu_iowait_percent"@,
        "node_cpu_idle_percent"@,
        "node_cpu_core_usage_percent"@,
        "node_cpu_core_idle_percent"@,
        "node_filesystem_size_bytes"@,
        "node_filesystem_used_bytes"@,
        "node_filesystem_avail_bytes"@,
        "node_network_receive_bytes_total"@,
        "node_network_receive_packets_total"@,
        "node_network_receive_errors_total"@,
        "node_network_receive_drop_total"@,
        "node_network_transmit_bytes_total"@,
        "node_network_transmit_packets_total"@,
        "node_network_transmit_errors_total"@,
        "node_network_transmit_drop_total"@,
    ]
}

/// The help texts of the metrics, in the same order.
pub open spec fn metric_helps() -> Seq<Seq<char>> {
    seq![
        "System information"@,
        "System uptime in seconds"@,
        "1 minute load average"@,
        "5 minute load average"@,
        "15 minute load average"@,
        "Running processes"@,
        "Total processes"@,
        "Open file descriptors"@,
        "Maximum file descriptors"@,
        "Total memory bytes"@,
        "Available memory bytes"@,
        "Used memory bytes"@,
        "Total swap bytes"@,
        "Free swap bytes"@,
        "Used swap bytes"@,
        "CPU usage percent"@,
        "CPU user time percent"@,
        "CPU system time percent"@,
        "CPU iowait percent"@,
        "CPU idle percent"@,
        "Per-core CPU usage percent"@,
        "Per-core CPU idle percent"@,
        "Filesystem size in bytes"@,
        "Filesystem used bytes"@,
        "Filesystem available bytes"@,
        "Bytes received"@,
        "Packets received"@,
        "Receive errors"@,
        "Receive drops"@,
        "Bytes transmitted"@,
        "Packets transmitted"@,
        "Transmit errors"@,
        "Transmit drops"@,
    ]
}


/// The entries of the metric table.
pub proof fn lemma_metric_table()
    ensures
        metric_names()[0] == "node_uname_info"@,
        metric_helps()[0] == "System information"@,
        metric_names()[1] == "node_uptime_seconds"@,
        metric_helps()[1] == "System uptime in seconds"@,
        metric_names()[2] == "node_load1"@,
        metric_helps()[2] == "1 minute load average"@,
        metric_names()[3] == "node_load5"@,
        metric_helps()[3] == "5 minute load average"@,
        metric_names()[4] == "node_load15"@,
        metric_helps()[4] == "15 minute load average"@,
        metric_names()[5] == "node_procs_running"@,
        metric_helps()[5] == "Running processes"@,
        metric_names()[6] == "node_procs_total"@,
        metric_helps()[6] == "Total processes"@,
        metric_names()[7] == "node_filefd_allocated"@,
        metric_helps()[7] == "Open file descriptors"@,
        metric_names()[8] == "node_filefd_maximum"@,
        metric_helps()[8] == "Maximum file descriptors"@,
        metric_names()[9] == "node_memory_total_bytes"@,
        metric_helps()[9] == "Total memory bytes"@,
        metric_names()[10] == "node_memory_available_bytes"@,
        metric_helps()[10] == "Available memory bytes"@,
        metric_names()[11] == "node_memory_used_bytes"@,
        metric_helps()[11] == "Used memory bytes"@,
        metric_names()[12] == "node_swap_total_bytes"@,
        metric_helps()[12] == "Total swap bytes"@,
        metric_names()[13] == "node_swap_free_bytes"@,
        metric_helps()[13] == "Free swap bytes"@,
        metric_names()[14] == "node_swap_used_bytes"@,
        metric_helps()[14] == "Used swap bytes"@,
        metric_names()[15] == "node_cpu_usage_percent"@,
        metric_helps()[15] == "CPU usage percent"@,
        metric_names()[16] == "node_cpu_user_percent"@,
        metric_helps()[16] == "CPU user time percent"@,
        metric_names()[17] == "node_cpu_system_percent"@,
        metric_helps()[17] == "CPU system time percent"@,
        metric_names()[18] == "node_cpu_iowait_percent"@,
        metric_helps()[18] == "CPU iowait percent"@,
        metric_names()[19] == "node_cpu_idle_percent"@,
        metric_helps()[19] == "CPU idle percent"@,
        metric_names()[20] == "node_cpu_core_usage_percent"@,
        metric_helps()[20] == "Per-core CPU usage percent"@,
        metric_names()[21] == "node_cpu_core_idle_percent"@,
        metric_helps()[21] == "Per-core CPU idle percent"@,
        metric_names()[22] == "node_filesystem_size_bytes"@,
        metric_helps()[22] == "Filesystem size in bytes"@,
        metric_names()[23] == "node_filesystem_used_bytes"@,
        metric_helps()[23] == "Filesystem used bytes"@,
        metric_names()[24] == "node_filesystem_avail_bytes"@,
        metric_helps()[24] == "Filesystem available bytes"@,
        metric_names()[25] == "node_network_receive_bytes_total"@,
        metric_helps()[25] == "Bytes received"@,
        metric_names()[26] == "node_network_receive_packets_total"@,
        metric_helps()[26] == "Packets received"@,
        metric_names()[27] == "node_network_receive_errors_total"@,
        metric_helps()[27] == "Receive errors"@,
        metric_names()[28] == "node_network_receive_drop_total"@,
        metric_helps()[28] == "Receive drops"@,
        metric_names()[29] == "node_network_transmit_bytes_total"@,
        metric_helps()[29] == "Bytes transmitted"@,
        metric_names()[30] == "node_network_transmit_packets_total"@,
        metric_helps()[30] == "Packets transmitted"@,
        metric_names()[31] == "node_network_transmit_errors_total"@,
        metric_helps()[31] == "Transmit errors"@,
        metric_names()[32] == "node_network_transmit_drop_total"@,
        metric_helps()[32] == "Transmit drops"@,
{
}

/// A part of the exposition: a metric (its `# HELP` and `# TYPE` lines,
/// then its samples) or the comment of a failed collector.
pub enum Block {
    Family { metric: int, samples: Seq<Sample> },
    Comment { collector: Seq<char>, error: Seq<char> },
}

pub open spec fn block_text(b: Block) -> Seq<char> {
    match b {
        Block::Family { metric, samples } => family_text(
            metric_names()[metric],
            metric_helps()[metric],
            samples,
        ),
        Block::Comment { collector, error } => failure_text(collector, error),
    }
}

/// The texts of `bs`, one after the other.
pub open spec fn blocks_text(bs: Seq<Block>) -> Seq<char>
    decreases bs.len(),
{
    if bs.len() == 0 {
        seq![]
    } else {
        blocks_text(bs.drop_last()) + block_text(bs.last())
    }
}

pub broadcast proof fn lemma_blocks_text_push(bs: Seq<Block>, b: Block)
    ensures
        #[trigger] blocks_text(bs.push(b)) == blocks_text(bs) + block_text(b),
{
    assert(bs.push(b).drop_last() =~= bs);
}

pub proof fn lemma_blocks_text_concat(a: Seq<Block>, b: Seq<Block>)
    ensures
        blocks_text(a + b) == blocks_text(a) + blocks_text(b),
    decreases b.len(),
{
    if b.len() == 0 {
        assert(a + b =~= a);
        assert(blocks_text(b) == Seq::<char>::empty());
        assert(blocks_text(a) + Seq::<char>::empty() =~= blocks_text(a));
    } else {
        lemma_blocks_text_concat(a, b.drop_last());
        assert((a + b).drop_last() =~= a + b.drop_last());
        assert((a + b).last() == b.last());
        assert(blocks_text(a + b) =~= blocks_text(a) + blocks_text(b));
    }
}

pub proof fn lemma_blocks_text_take(bs: Seq<Block>, k: int)
    requires
        0 <= k < bs.len(),
    ensures
        blocks_text(bs.take(k + 1)) == blocks_text(bs.take(k)) + block_text(bs[k]),
{
    assert(bs.take(k + 1).drop_last() =~= bs.take(k));
    assert(bs.take(k + 1).last() == bs[k]);
}

/// A metric with a single sample.
pub open spec fn single(metric: int, labels: Labels, value: Seq<char>) -> Block {
    Block::Family { metric, samples: seq![(labels, value)] }
}

/// The comment of a failed collector.
pub open spec fn comment(collector: Seq<char>, error: String) -> Block {
    Block::Comment { collector, error: error@ }
}

pub open spec fn host_blocks(r: CheckResult<HostReport>) -> Seq<Block> {
    match r {
        CheckResult::Success(h) => seq![
            single(
                0,
                seq![
                    ("hostname"@, h.hostname@),
                    ("os_type"@, h.os_type@),
                    ("kernel_release"@, h.kernel_release@),
                    ("arch"@, h.arch@),
                ],
                "1"@,
            ),
        ],
        CheckResult::Failure { error } => seq![comment("host"@, error)],
    }
}

pub open spec fn system_blocks(r: CheckResult<SystemGauges>) -> Seq<Block> {
    match r {
        CheckResult::Success(s) => seq![
            single(1, seq![], s.uptime_seconds@),
            single(2, seq![], s.load_avg_1@),
            single(3, seq![], s.load_avg_5@),
            single(4, seq![], s.load_avg_15@),
            single(5, seq![], s.running_procs@),
            single(6, seq![], s.total_procs@),
            single(7, seq![], s.open_fds@),
            single(8, seq![], s.max_fds@),
        ],
        CheckResult::Failure { error } => seq![comment("system"@, error)],
    }
}

pub open spec fn memory_blocks(r: CheckResult<MemoryGauges>) -> Seq<Block> {
    match r {
        CheckResult::Success(m) => seq![
            single(9, seq![], m.total_bytes@),
            single(10, seq![], m.available_bytes@),
            single(11, seq![], m.used_bytes@),
            single(12, seq![], m.swap_total_bytes@),
            single(13, seq![], m.swap_free_bytes@),
            single(14, seq![], m.swap_used_bytes@),
        ],
        CheckResult::Failure { error } => seq![comment("memory"@, error)],
    }
}

pub open spec fn cpu_blocks(r: CheckResult<CpuGauges>) -> Seq<Block> {
    match r {
        CheckResult::Success(c) => seq![
            single(15, seq![], c.usage_percent@),
            single(16, seq![], c.user_percent@),
            single(17, seq![], c.system_percent@),
            single(18, seq![], c.iowait_percent@),
            single(19, seq![], c.idle_percent@),
            Block::Family { metric: 20, samples: core_samples(c.cores@, CoreGauge::Usage) },
            Block::Family { metric: 21, samples: core_samples(c.cores@, CoreGauge::Idle) },
        ],
        CheckResult::Failure { error } => seq![comment("cpu"@, error)],
    }
}

pub open spec fn disk_blocks(r: CheckResult<Vec<FilesystemGauges>>) -> Seq<Block> {
    match r {
        CheckResult::Success(fs) => seq![
            Block::Family { metric: 22, samples: fs_samples(fs@, FsGauge::Size) },
            Block::Family { metric: 23, samples: fs_samples(fs@, FsGauge::Used) },
            Block::Family { metric: 24, samples: fs_samples(fs@, FsGauge::Avail) },
        ],
        CheckResult::Failure { error } => seq![comment("disk"@, error)],
    }
}

pub open spec fn network_blocks(r: CheckResult<Vec<InterfaceGauges>>) -> Seq<Block> {
    match r {
        CheckResult::Success(ifs) => seq![
            Block::Family { metric: 25, samples: net_samples(ifs@, NetCounter::ReceiveBytes) },
            Block::Family { metric: 26, samples: net_samples(ifs@, NetCounter::ReceivePackets) },
            Block::Family { metric: 27, samples: net_samples(ifs@, NetCounter::ReceiveErrors) },
            Block::Family { metric: 28, samples: net_samples(ifs@, NetCounter::ReceiveDrop) },
            Block::Family { metric: 29, samples: net_samples(ifs@, NetCounter::TransmitBytes) },
            Block::Family { metric: 30, samples: net_samples(ifs@, NetCounter::TransmitPackets) },
            Block::Family { metric: 31, samples: net_samples(ifs@, NetCounter::TransmitErrors) },
            Block::Family { metric: 32, samples: net_samples(ifs@, NetCounter::TransmitDrop) },
        ],
        CheckResult::Failure { error } => seq![comment("network"@, error)],
    }
}

/// The parts of the exposition of `r`, in order.
pub open spec fn report_blocks(r: Report) -> Seq<Block> {
    host_blocks(r.host) + system_blocks(r.system) + memory_blocks(r.memory) + cpu_blocks(r.cpu)
        + disk_blocks(r.disk) + network_blocks(r.network)
}

/// The metrics of `bs` lie in `[lo, hi)` and come in increasing order.
pub open spec fn ordered_within(bs: Seq<Block>, lo: int, hi: int) -> bool {
    &&& forall|i: int|
        0 <= i < bs.len() && (#[trigger] bs[i]) is Family ==> lo <= bs[i]->metric < hi
    &&& forall|i: int, j: int|
        0 <= i < j < bs.len() && (#[trigger] bs[i]) is Family && (#[trigger] bs[j]) is Family
            ==> bs[i]->metric < bs[j]->metric
}

pub proof fn lemma_ordered_concat(a: Seq<Block>, b: Seq<Block>, lo: int, mid: int, hi: int)
    requires
        lo <= mid <= hi,
        ordered_within(a, lo, mid),
        ordered_within(b, mid, hi),
    ensures
        ordered_within(a + b, lo, hi),
{
    let c = a + b;
    assert forall|i: int| 0 <= i < c.len() && (#[trigger] c[i]) is Family implies lo <= c[i]->metric < hi by {
        if i < a.len() {
            assert(c[i] == a[i]);
        } else {
            assert(c[i] == b[i - a.len()]);
        }
    }
    assert forall|i: int, j: int|
        0 <= i < j < c.len() && (#[trigger] c[i]) is Family && (#[trigger] c[j]) is Family
    implies c[i]->metric < c[j]->metric by {
        if j < a.len() {
            assert(c[i] == a[i] && c[j] == a[j]);
        } else if i >= a.len() {
            assert(c[i] == b[i - a.len()] && c[j] == b[j - a.len()]);
        } else {
            assert(c[i] == a[i] && c[j] == b[j - a.len()]);
        }
    }
}

/// A fingerprint of a metric name: its length and two of its characters.
pub open spec fn name_code(s: Seq<char>) -> (int, char, char) {
    (s.len() as int, s[9], s[s.len() - 9])
}

pub open spec fn name_codes() -> Seq<(int, char, char)> {
    seq![
        (15int, 'e', 'n'),
        (19int, 'm', 'e'),
        (10int, '1', 'o'),
        (10int, '5', 'o'),
        (11int, '1', 'd'),
        (18int, 's', 's'),
        (16int, 's', 'o'),
        (21int, 'f', 'a'),
        (19int, 'f', 'd'),
        (23int, 'r', 't'),
        (27int, 'r', 'b'),
        (22int, 'r', 's'),
        (21int, '_', 't'),
        (20int, '_', 'r'),
        (20int, '_', 's'),
        (22int, 'u', 'e'),
        (21int, 'u', 'r'),
        (23int, 's', 'm'),
        (23int, 'i', 't'),
        (21int, 'i', 'e'),
        (27int, 'c', 'e'),
        (26int, 'c', 'e'),
        (26int, 's', 'i'),
        (26int, 's', 's'),
        (27int, 's', 'a'),
        (32int, 'o', 't'),
        (34int, 'o', 'e'),
        (33int, 'o', 'o'),
        (31int, 'o', 'r'),
        (33int, 'o', 't'),
        (35int, 'o', 'e'),
        (34int, 'o', 'o'),
        (32int, 'o', 'r'),
    ]
}

/// No metric name occurs twice.
#[verifier::rlimit(50)]
pub proof fn lemma_names_distinct()
    ensures
        metric_names().len() == 33,
        metric_helps().len() == 33,
        metric_names().no_duplicates(),
{
    reveal_strlit("node_uname_info");
    reveal_strlit("node_uptime_seconds");
    reveal_strlit("node_load1");
    reveal_strlit("node_load5");
    reveal_strlit("node_load15");
    reveal_strlit("node_procs_running");
    reveal_strlit("node_procs_total");
    reveal_strlit("node_filefd_allocated");
    reveal_strlit("node_filefd_maximum");
    reveal_strlit("node_memory_total_bytes");
    reveal_strlit("node_memory_available_bytes");
    reveal_strlit("node_memory_used_bytes");
    reveal_strlit("node_swap_total_bytes");
    reveal_strlit("node_swap_free_bytes");
    reveal_strlit("node_swap_used_bytes");
    reveal_strlit("node_cpu_usage_percent");
    reveal_strlit("node_cpu_user_percent");
    reveal_strlit("node_cpu_system_percent");
    reveal_strlit("node_cpu_iowait_percent");
    reveal_strlit("node_cpu_idle_percent");
    reveal_strlit("node_cpu_core_usage_percent");
    reveal_strlit("node_cpu_core_idle_percent");
    reveal_strlit("node_filesystem_size_bytes");
    reveal_strlit("node_filesystem_used_bytes");
    reveal_strlit("node_filesystem_avail_bytes");
    reveal_strlit("node_network_receive_bytes_total");
    reveal_strlit("node_network_receive_packets_total");
    reveal_strlit("node_network_receive_errors_total");
    reveal_strlit("node_network_receive_drop_total");
    reveal_strlit("node_network_transmit_bytes_total");
    reveal_strlit("node_network_transmit_packets_total");
    reveal_strlit("node_network_transmit_errors_total");
    reveal_strlit("node_network_transmit_drop_total");
    assert(name_code(metric_names()[0]) == name_codes()[0]);
    assert(name_code(metric_names()[1]) == name_codes()[1]);
    assert(name_code(metric_names()[2]) == name_codes()[2]);
    assert(name_code(metric_names()[3]) == name_codes()[3]);
    assert(name_code(metric_names()[4]) == name_codes()[4]);
    assert(name_code(metric_names()[5]) == name_codes()[5]);
    assert(name_code(metric_names()[6]) == name_codes()[6]);
    assert(name_code(metric_names()[7]) == name_codes()[7]);
    assert(name_code(metric_names()[8]) == name_codes()[8]);
    assert(name_code(metric_names()[9]) == name_codes()[9]);
    assert(name_code(metric_names()[10]) == name_codes()[10]);
    assert(name_code(metric_names()[11]) == name_codes()[11]);
    assert(name_code(metric_names()[12]) == name_codes()[12]);
    assert(name_code(metric_names()[13]) == name_codes()[13]);
    assert(name_code(metric_names()[14]) == name_codes()[14]);
    assert(name_code(metric_names()[15]) == name_codes()[15]);
    assert(name_code(metric_names()[16]) == name_codes()[16]);
    assert(name_code(metric_names()[17]) == name_codes()[17]);
    assert(name_code(metric_names()[18]) == name_codes()[18]);
    assert(name_code(metric_names()[19]) == name_codes()[19]);
    assert(name_code(metric_names()[20]) == name_codes()[20]);
    assert(name_code(metric_names()[21]) == name_codes()[21]);
    assert(name_code(metric_names()[22]) == name_codes()[22]);
    assert(name_code(metric_names()[23]) == name_codes()[23]);
    assert(name_code(metric_names()[24]) == name_codes()[24]);
    assert(name_code(metric_names()[25]) == name_codes()[25]);
    assert(name_code(metric_names()[26]) == name_codes()[26]);
    assert(name_code(metric_names()[27]) == name_codes()[27]);
    assert(name_code(metric_names()[28]) == name_codes()[28]);
    assert(name_code(metric_names()[29]) == name_codes()[29]);
    assert(name_code(metric_names()[30]) == name_codes()[30]);
    assert(name_code(metric_names()[31]) == name_codes()[31]);
    assert(name_code(metric_names()[32]) == name_codes()[32]);
    assert(name_codes().no_duplicates());
    assert forall|i: int, j: int|
        0 <= i < metric_names().len() && 0 <= j < metric_names().len() && i != j implies metric_names()[i]
        != metric_names()[j] by {
        if metric_names()[i] == metric_names()[j] {
            assert(name_code(metric_names()[i]) == name_code(metric_names()[j]));
        }
    }
}

pub broadcast proof fn lemma_single(m: int, l: Labels, v: Seq<char>)
    ensures
        #[trigger] block_text(single(m, l, v)) == gauge_text(metric_names()[m], metric_helps()[m], l, v),
{
    let s: Seq<Sample> = seq![(l, v)];
    let n = metric_names()[m];
    assert(s.drop_last() =~= Seq::<Sample>::empty());
    assert(s.last() == (l, v));
    assert(samples_text(n, s.drop_last()) == Seq::<char>::empty());
    assert(samples_text(n, s) == samples_text(n, s.drop_last()) + sample_text(n, l, v));
    assert(samples_text(n, s) =~= sample_text(n, l, v));
}

pub proof fn lemma_comment(c: Seq<char>, e: String)
    ensures
        blocks_text(seq![comment(c, e)]) == failure_text(c, e@),
{
    broadcast use lemma_blocks_text_push;
    assert(blocks_text(Seq::<Block>::empty()) == Seq::<char>::empty());
    assert(Seq::<char>::empty() + failure_text(c, e@) =~= failure_text(c, e@));
}

proof fn lemma_host_blocks(r: CheckResult<HostReport>)
    ensures
        host_section(r) == blocks_text(host_blocks(r)),
        ordered_within(host_blocks(r), 0, 1),
{
    broadcast use lemma_blocks_text_push, lemma_single;
    match r {
        CheckResult::Success(h) => {
            assert(blocks_text(host_blocks(r)) =~= host_text(h));
        },
        CheckResult::Failure { error } => lemma_comment("host"@, error),
    }
}

proof fn lemma_system_blocks(r: CheckResult<SystemGauges>)
    ensures
        system_section(r) == blocks_text(system_blocks(r)),
        ordered_within(system_blocks(r), 1, 9),
{
    broadcast use lemma_blocks_text_push, lemma_single;
    match r {
        CheckResult::Success(s) => {
            lemma_metric_table();
            assert(blocks_text(Seq::<Block>::empty()) == Seq::<char>::empty());
            let bs = system_blocks(r);
            assert(bs.take(0) =~= Seq::<Block>::empty());
            lemma_blocks_text_take(bs, 0);
            lemma_blocks_text_take(bs, 1);
            lemma_blocks_text_take(bs, 2);
            lemma_blocks_text_take(bs, 3);
            lemma_blocks_text_take(bs, 4);
            lemma_blocks_text_take(bs, 5);
            lemma_blocks_text_take(bs, 6);
            lemma_blocks_text_take(bs, 7);
            assert(bs.take(8) =~= bs);
            assert(blocks_text(system_blocks(r)) =~= system_text(s));
        },
        CheckResult::Failure { error } => lemma_comment("system"@, error),
    }
}

proof fn lemma_memory_blocks(r: CheckResult<MemoryGauges>)
    ensures
        memory_section(r) == blocks_text(memory_blocks(r)),
        ordered_within(memory_blocks(r), 9, 15),
{
    broadcast use lemma_blocks_text_push, lemma_single;
    match r {
        CheckResult::Success(m) => {
            lemma_metric_table();
            assert(blocks_text(Seq::<Block>::empty()) == Seq::<char>::empty());
            let bs = memory_blocks(r);
            assert(bs.take(0) =~= Seq::<Block>::empty());
            lemma_blocks_text_take(bs, 0);
            lemma_blocks_text_take(bs, 1);
            lemma_blocks_text_take(bs, 2);
            lemma_blocks_text_take(bs, 3);
            lemma_blocks_text_take(bs, 4);
            lemma_blocks_text_take(bs, 5);
            assert(bs.take(6) =~= bs);
            assert(blocks_text(memory_blocks(r)) =~= memory_text(m));
        },
        CheckResult::Failure { error } => lemma_comment("memory"@, error),
    }
}

proof fn lemma_cpu_blocks(r: CheckResult<CpuGauges>)
    ensures
        cpu_section(r) == blocks_text(cpu_blocks(r)),
        ordered_within(cpu_blocks(r), 15, 22),
{
    broadcast use lemma_blocks_text_push, lemma_single;
    match r {
        CheckResult::Success(c) => {
            lemma_metric_table();
            assert(blocks_text(Seq::<Block>::empty()) == Seq::<char>::empty());
            let bs = cpu_blocks(r);
            assert(bs.take(0) =~= Seq::<Block>::empty());
            lemma_blocks_text_take(bs, 0);
            lemma_blocks_text_take(bs, 1);
            lemma_blocks_text_take(bs, 2);
            lemma_blocks_text_take(bs, 3);
            lemma_blocks_text_take(bs, 4);
            lemma_blocks_text_take(bs, 5);
            lemma_blocks_text_take(bs, 6);
            assert(bs.take(7) =~= bs);
            assert(blocks_text(cpu_blocks(r)) =~= cpu_text(c));
        },
        CheckResult::Failure { error } => lemma_comment("cpu"@, error),
    }
}

proof fn lemma_disk_blocks(r: CheckResult<Vec<FilesystemGauges>>)
    ensures
        disk_section(r) == blocks_text(disk_blocks(r)),
        ordered_within(disk_blocks(r), 22, 25),
{
    broadcast use lemma_blocks_text_push;
    match r {
        CheckResult::Success(fs) => {
            lemma_metric_table();
            assert(blocks_text(Seq::<Block>::empty()) == Seq::<char>::empty());
            let bs = disk_blocks(r);
            assert(bs.take(0) =~= Seq::<Block>::empty());
            lemma_blocks_text_take(bs, 0);
            lemma_blocks_text_take(bs, 1);
            lemma_blocks_text_take(bs, 2);
            assert(bs.take(3) =~= bs);
            assert(blocks_text(disk_blocks(r)) =~= disk_text(fs@));
        },
        CheckResult::Failure { error } => lemma_comment("disk"@, error),
    }
}

proof fn lemma_network_blocks(r: CheckResult<Vec<InterfaceGauges>>)
    ensures
        network_section(r) == blocks_text(network_blocks(r)),
        ordered_within(network_blocks(r), 25, 33),
{
    broadcast use lemma_blocks_text_push;
    match r {
        CheckResult::Success(ifs) => {
            lemma_metric_table();
            assert(blocks_text(Seq::<Block>::empty()) == Seq::<char>::empty());
            let bs = network_blocks(r);
            assert(bs.take(0) =~= Seq::<Block>::empty());
            lemma_blocks_text_take(bs, 0);
            lemma_blocks_text_take(bs, 1);
            lemma_blocks_text_take(bs, 2);
            lemma_blocks_text_take(bs, 3);
            lemma_blocks_text_take(bs, 4);
            lemma_blocks_text_take(bs, 5);
            lemma_blocks_text_take(bs, 6);
            lemma_blocks_text_take(bs, 7);
            assert(bs.take(8) =~= bs);
            assert(blocks_text(network_blocks(r)) =~= network_text(ifs@));
        },
        CheckResult::Failure { error } => lemma_comment("network"@, error),
    }
}

proof fn lemma_block_ends_with_newline(b: Block)
    ensures
        block_text(b).len() > 0,
        block_text(b).last() == '\n',
{
    reveal_strlit("\n");
    reveal_strlit(" gauge\n");
    match b {
        Block::Family { metric, samples } => {
            let n = metric_names()[metric];
            let h = metric_helps()[metric];
            if samples.len() == 0 {
                assert(samples_text(n, samples) == Seq::<char>::empty());
                assert(block_text(b) =~= help_text(n, h));
            } else {
                let last = samples.last();
                assert(sample_text(n, last.0, last.1).last() == '\n');
            }
        },
        Block::Comment { collector, error } => {},
    }
}

proof fn lemma_blocks_end_with_newline(bs: Seq<Block>)
    ensures
        blocks_text(bs).len() == 0 || blocks_text(bs).last() == '\n',
    decreases bs.len(),
{
    if bs.len() > 0 {
        lemma_blocks_end_with_newline(bs.drop_last());
        lemma_block_ends_with_newline(bs.last());
    }
}

/// The layout of the exposition: it is made of parts, one after the other,
/// each either a metric (its `# HELP` line and its `# TYPE` line, then one
/// line per sample, every sample line starting with the metric's name) or
/// the comment of a failed collector. The metrics come in the fixed order of
/// [`metric_names`], so no metric occurs twice, and the text is empty or
/// ends with a line break.
pub proof fn lemma_layout(r: Report)
    ensures
        exposition(r) == blocks_text(report_blocks(r)),
        ordered_within(report_blocks(r), 0, 33),
        forall|i: int, j: int|
            0 <= i < j < report_blocks(r).len() && (#[trigger] report_blocks(r)[i]) is Family
                && (#[trigger] report_blocks(r)[j]) is Family ==> metric_names()[report_blocks(
                r,
            )[i]->metric] != metric_names()[report_blocks(r)[j]->metric],
        exposition(r).len() == 0 || exposition(r).last() == '\n',
{
    lemma_host_blocks(r.host);
    lemma_system_blocks(r.system);
    lemma_memory_blocks(r.memory);
    lemma_cpu_blocks(r.cpu);
    lemma_disk_blocks(r.disk);
    lemma_network_blocks(r.network);
    let a = host_blocks(r.host);
    let b = a + system_blocks(r.system);
    let c = b + memory_blocks(r.memory);
    let d = c + cpu_blocks(r.cpu);
    let e = d + disk_blocks(r.disk);
    let f = e + network_blocks(r.network);
    lemma_blocks_text_concat(a, system_blocks(r.system));
    lemma_blocks_text_concat(b, memory_blocks(r.memory));
    lemma_blocks_text_concat(c, cpu_blocks(r.cpu));
    lemma_blocks_text_concat(d, disk_blocks(r.disk));
    lemma_blocks_text_concat(e, network_blocks(r.network));
    lemma_ordered_concat(a, system_blocks(r.system), 0, 1, 9);
    lemma_ordered_concat(b, memory_blocks(r.memory), 0, 9, 15);
    lemma_ordered_concat(c, cpu_blocks(r.cpu), 0, 15, 22);
    lemma_ordered_concat(d, disk_blocks(r.disk), 0, 22, 25);
    lemma_ordered_concat(e, network_blocks(r.network), 0, 25, 33);
    assert(f == report_blocks(r));
    lemma_names_distinct();
    lemma_blocks_end_with_newline(f);
}

// ---------------------------------------------------------------- lines

/// `s` holds no line break.
pub open spec fn no_newline(s: Seq<char>) -> bool {
    forall|i: int| 0 <= i < s.len() ==> s[i] != '\n'
}

/// No metric name or help text holds a line break, so every metric header
/// is two lines.
#[verifier::rlimit(100)]
pub proof fn lemma_table_single_lines()
    ensures
        forall|k: int| 0 <= k < 33 ==> no_newline(#[trigger] metric_names()[k]) && no_newline(metric_helps()[k]),
{
    lemma_metric_table();
    reveal_strlit("node_uname_info");
    assert(no_newline("node_uname_info"@));
    reveal_strlit("node_uptime_seconds");
    assert(no_newline("node_uptime_seconds"@));
    reveal_strlit("node_load1");
    assert(no_newline("node_load1"@));
    reveal_strlit("node_load5");
    assert(no_newline("node_load5"@));
    reveal_strlit("node_load15");
    assert(no_newline("node_load15"@));
    reveal_strlit("node_procs_running");
    assert(no_newline("node_procs_running"@));
    reveal_strlit("node_procs_total");
    assert(no_newline("node_procs_total"@));
    reveal_strlit("node_filefd_allocated");
    assert(no_newline("node_filefd_allocated"@));
    reveal_strlit("node_filefd_maximum");
    assert(no_newline("node_filefd_maximum"@));
    reveal_strlit("node_memory_total_bytes");
    assert(no_newline("node_memory_total_bytes"@));
    reveal_strlit("node_memory_available_bytes");
    assert(no_newline("node_memory_available_bytes"@));
    reveal_strlit("node_memory_used_bytes");
    assert(no_newline("node_memory_used_bytes"@));
    reveal_strlit("node_swap_total_bytes");
    assert(no_newline("node_swap_total_bytes"@));
    reveal_strlit("node_swap_free_bytes");
    assert(no_newline("node_swap_free_bytes"@));
    reveal_strlit("node_swap_used_bytes");
    assert(no_newline("node_swap_used_bytes"@));
    reveal_strlit("node_cpu_usage_percent");
    assert(no_newline("node_cpu_usage_percent"@));
    reveal_strlit("node_cpu_user_percent");
    assert(no_newline("node_cpu_user_percent"@));
    reveal_strlit("node_cpu_system_percent");
    assert(no_newline("node_cpu_system_percent"@));
    reveal_strlit("node_cpu_iowait_percent");
    assert(no_newline("node_cpu_iowait_percent"@));
    reveal_strlit("node_cpu_idle_percent");
    assert(no_newline("node_cpu_idle_percent"@));
    reveal_strlit("node_cpu_core_usage_percent");
    assert(no_newline("node_cpu_core_usage_percent"@));
    reveal_strlit("node_cpu_core_idle_percent");
    assert(no_newline("node_cpu_core_idle_percent"@));
    reveal_strlit("node_filesystem_size_bytes");
    assert(no_newline("node_filesystem_size_bytes"@));
    reveal_strlit("node_filesystem_used_bytes");
    assert(no_newline("node_filesystem_used_bytes"@));
    reveal_strlit("node_filesystem_avail_bytes");
    assert(no_newline("node_filesystem_avail_bytes"@));
    reveal_strlit("node_network_receive_bytes_total");
    assert(no_newline("node_network_receive_bytes_total"@));
    reveal_strlit("node_network_receive_packets_total");
    assert(no_newline("node_network_receive_packets_total"@));
    reveal_strlit("node_network_receive_errors_total");
    assert(no_newline("node_network_receive_errors_total"@));
    reveal_strlit("node_network_receive_drop_total");
    assert(no_newline("node_network_receive_drop_total"@));
    reveal_strlit("node_network_transmit_bytes_total");
    assert(no_newline("node_network_transmit_bytes_total"@));
    reveal_strlit("node_network_transmit_packets_total");
    assert(no_newline("node_network_transmit_packets_total"@));
    reveal_strlit("node_network_transmit_errors_total");
    assert(no_newline("node_network_transmit_errors_total"@));
    reveal_strlit("node_network_transmit_drop_total");
    assert(no_newline("node_network_transmit_drop_total"@));
    reveal_strlit("System information");
    assert(no_newline("System information"@));
    reveal_strlit("System uptime in seconds");
    assert(no_newline("System uptime in seconds"@));
    reveal_strlit("1 minute load average");
    assert(no_newline("1 minute load average"@));
    reveal_strlit("5 minute load average");
    assert(no_newline("5 minute load average"@));
    reveal_strlit("15 minute load average");
    assert(no_newline("15 minute load average"@));
    reveal_strlit("Running processes");
    assert(no_newline("Running processes"@));
    reveal_strlit("Total processes");
    assert(no_newline("Total processes"@));
    reveal_strlit("Open file descriptors");
    assert(no_newline("Open file descriptors"@));
    reveal_strlit("Maximum file descriptors");
    assert(no_newline("Maximum file descriptors"@));
    reveal_strlit("Total memory bytes");
    assert(no_newline("Total memory bytes"@));
    reveal_strlit("Available memory bytes");
    assert(no_newline("Available memory bytes"@));
    reveal_strlit("Used memory bytes");
    assert(no_newline("Used memory bytes"@));
    reveal_strlit("Total swap bytes");
    assert(no_newline("Total swap bytes"@));
    reveal_strlit("Free swap bytes");
    assert(no_newline("Free swap bytes"@));
    reveal_strlit("Used swap bytes");
    assert(no_newline("Used swap bytes"@));
    reveal_strlit("CPU usage percent");
    assert(no_newline("CPU usage percent"@));
    reveal_strlit("CPU user time percent");
    assert(no_newline("CPU user time percent"@));
    reveal_strlit("CPU system time percent");
    assert(no_newline("CPU system time percent"@));
    reveal_strlit("CPU iowait percent");
    assert(no_newline("CPU iowait percent"@));
    reveal_strlit("CPU idle percent");
    assert(no_newline("CPU idle percent"@));
    reveal_strlit("Per-core CPU usage percent");
    assert(no_newline("Per-core CPU usage percent"@));
    reveal_strlit("Per-core CPU idle percent");
    assert(no_newline("Per-core CPU idle percent"@));
    reveal_strlit("Filesystem size in bytes");
    assert(no_newline("Filesystem size in bytes"@));
    reveal_strlit("Filesystem used bytes");
    assert(no_newline("Filesystem used bytes"@));
    reveal_strlit("Filesystem available bytes");
    assert(no_newline("Filesystem available bytes"@));
    reveal_strlit("Bytes received");
    assert(no_newline("Bytes received"@));
    reveal_strlit("Packets received");
    assert(no_newline("Packets received"@));
    reveal_strlit("Receive errors");
    assert(no_newline("Receive errors"@));
    reveal_strlit("Receive drops");
    assert(no_newline("Receive drops"@));
    reveal_strlit("Bytes transmitted");
    assert(no_newline("Bytes transmitted"@));
    reveal_strlit("Packets transmitted");
    assert(no_newline("Packets transmitted"@));
    reveal_strlit("Transmit errors");
    assert(no_newline("Transmit errors"@));
    reveal_strlit("Transmit drops");
    assert(no_newline("Transmit drops"@));
    assert forall|k: int| 0 <= k < 33 implies no_newline(#[trigger] metric_names()[k]) && no_newline(metric_helps()[k]) by {
        lemma_metric_table();
    }
}

/// `s` is one line: text without a line break, then a line break.
pub open spec fn is_line(s: Seq<char>) -> bool {
    s.len() > 0 && s.last() == '\n' && no_newline(s.drop_last())
}

pub proof fn lemma_no_newline_concat(a: Seq<char>, b: Seq<char>)
    requires
        no_newline(a),
        no_newline(b),
    ensures
        no_newline(a + b),
{
    assert forall|i: int| 0 <= i < (a + b).len() implies (a + b)[i] != '\n' by {
        if i < a.len() {
            assert((a + b)[i] == a[i]);
        } else {
            assert((a + b)[i] == b[i - a.len()]);
        }
    }
}

/// A line made of `body` and a line break.
pub proof fn lemma_line(body: Seq<char>)
    requires
        no_newline(body),
    ensures
        is_line(body + "\n"@),
{
    reveal_strlit("\n");
    assert((body + "\n"@).drop_last() =~= body);
}

proof fn lemma_labels_no_newline(labels: Labels)
    requires
        forall|k: int| 0 <= k < labels.len() ==> no_newline((#[trigger] labels[k]).0) && no_newline(labels[k].1),
    ensures
        no_newline(labels_text(labels)),
    decreases labels.len(),
{
    reveal_strlit("=\"");
    reveal_strlit("\"");
    reveal_strlit(",");
    if labels.len() > 0 {
        let l = labels.last();
        assert(l == labels[labels.len() - 1]);
        lemma_no_newline_concat(l.0, "=\""@);
        lemma_no_newline_concat(l.0 + "=\""@, l.1);
        lemma_no_newline_concat(l.0 + "=\""@ + l.1, "\""@);
        if labels.len() > 1 {
            lemma_labels_no_newline(labels.drop_last());
            lemma_no_newline_concat(labels_text(labels.drop_last()), ","@);
            lemma_no_newline_concat(labels_text(labels.drop_last()) + ","@, label_text(l));
        }
    }
}

/// Where neither the metric name, the label keys and values nor the value
/// hold a line break, a sample is exactly one line.
pub proof fn lemma_sample_is_line(name: Seq<char>, labels: Labels, value: Seq<char>)
    requires
        no_newline(name),
        no_newline(value),
        forall|k: int| 0 <= k < labels.len() ==> no_newline((#[trigger] labels[k]).0) && no_newline(labels[k].1),
    ensures
        is_line(sample_text(name, labels, value)),
{
    reveal_strlit(" ");
    reveal_strlit("{");
    reveal_strlit("} ");
    if labels.len() == 0 {
        lemma_no_newline_concat(name, " "@);
        lemma_no_newline_concat(name + " "@, value);
        lemma_line(name + " "@ + value);
    } else {
        lemma_labels_no_newline(labels);
        lemma_no_newline_concat(name, "{"@);
        lemma_no_newline_concat(name + "{"@, labels_text(labels));
        lemma_no_newline_concat(name + "{"@ + labels_text(labels), "} "@);
        lemma_no_newline_concat(name + "{"@ + labels_text(labels) + "} "@, value);
        lemma_line(name + "{"@ + labels_text(labels) + "} "@ + value);
    }
}

/// Where the name and the help text hold no line break, the header of a
/// metric is two lines: `# HELP name help` and `# TYPE name gauge`.
pub proof fn lemma_header_lines(name: Seq<char>, help: Seq<char>)
    requires
        no_newline(name),
        no_newline(help),
    ensures
        help_text(name, help) == ("# HELP "@ + name + " "@ + help + "\n"@) + ("# TYPE "@ + name + " gauge\n"@),
        is_line("# HELP "@ + name + " "@ + help + "\n"@),
        is_line("# TYPE "@ + name + " gauge\n"@),
{
    reveal_strlit("# HELP ");
    reveal_strlit(" ");
    reveal_strlit("\n");
    reveal_strlit("\n# TYPE ");
    reveal_strlit("# TYPE ");
    reveal_strlit(" gauge\n");
    reveal_strlit(" gauge");
    assert(help_text(name, help) =~= ("# HELP "@ + name + " "@ + help + "\n"@) + ("# TYPE "@ + name
        + " gauge\n"@));
    lemma_no_newline_concat("# HELP "@, name);
    lemma_no_newline_concat("# HELP "@ + name, " "@);
    lemma_no_newline_concat("# HELP "@ + name + " "@, help);
    lemma_line("# HELP "@ + name + " "@ + help);
    lemma_no_newline_concat("# TYPE "@, name);
    lemma_no_newline_concat("# TYPE "@ + name, " gauge"@);
    lemma_line("# TYPE "@ + name + " gauge"@);
    assert("# TYPE "@ + name + " gauge"@ + "\n"@ =~= "# TYPE "@ + name + " gauge\n"@);
}

/// A metric's part of the exposition, where no label and no value holds a
/// line break: its `# HELP` line, its `# TYPE` line, then its samples, each
/// one line that starts with the metric's name.
pub proof fn lemma_family_lines(m: int, samples: Seq<Sample>)
    requires
        0 <= m < 33,
        forall|i: int|
            0 <= i < samples.len() ==> no_newline((#[trigger] samples[i]).1) && forall|k: int|
                0 <= k < samples[i].0.len() ==> no_newline((#[trigger] samples[i].0[k]).0) && no_newline(
                    samples[i].0[k].1,
                ),
    ensures
        ({
            let name = metric_names()[m];
            let help = metric_helps()[m];
            &&& block_text(Block::Family { metric: m, samples }) == ("# HELP "@ + name + " "@ + help
                + "\n"@) + ("# TYPE "@ + name + " gauge\n"@) + samples_text(name, samples)
            &&& is_line("# HELP "@ + name + " "@ + help + "\n"@)
            &&& is_line("# TYPE "@ + name + " gauge\n"@)
            &&& forall|i: int|
                0 <= i < samples.len() ==> is_line(
                    #[trigger] sample_text(name, samples[i].0, samples[i].1),
                ) && has_prefix(sample_text(name, samples[i].0, samples[i].1), name)
        }),
{
    lemma_table_single_lines();
    let name = metric_names()[m];
    let help = metric_helps()[m];
    lemma_header_lines(name, help);
    assert forall|i: int| 0 <= i < samples.len() implies is_line(
        #[trigger] sample_text(name, samples[i].0, samples[i].1),
    ) && has_prefix(sample_text(name, samples[i].0, samples[i].1), name) by {
        lemma_sample_is_line(name, samples[i].0, samples[i].1);
        let t = sample_text(name, samples[i].0, samples[i].1);
        assert(t.subrange(0, name.len() as int) =~= name);
    }
}

/// Where the collector's name and the error hold no line break, the comment
/// of a failed collector is one line.
pub proof fn lemma_comment_is_line(collector: Seq<char>, error: Seq<char>)
    requires
        no_newline(collector),
        no_newline(error),
    ensures
        is_line(failure_text(collector, error)),
{
    reveal_strlit("# collector error: ");
    reveal_strlit(": ");
    lemma_no_newline_concat("# collector error: "@, collector);
    lemma_no_newline_concat("# collector error: "@ + collector, ": "@);
    lemma_no_newline_concat("# collector error: "@ + collector + ": "@, error);
    lemma_line("# collector error: "@ + collector + ": "@ + error);
}

// ---------------------------------------------------------------- independence

/// The collectors, in the order of the exposition.
#[derive(Clone, Copy, Debug, PartialEq, Eq)]
pub enum Collector {
    Host,
    System,
    Memory,
    Cpu,
    Disk,
    Network,
}

pub open spec fn position(c: Collector) -> int {
    match c {
        Collector::Host => 0,
        Collector::System => 1,
        Collector::Memory => 2,
        Collector::Cpu => 3,
        Collector::Disk => 4,
        Collector::Network => 5,
    }
}

/// The text of each collector, in the order of the exposition.
pub open spec fn sections(r: Report) -> Seq<Seq<char>> {
    seq![
        host_section(r.host),
        system_section(r.system),
        memory_section(r.memory),
        cpu_section(r.cpu),
        disk_section(r.disk),
        network_section(r.network),
    ]
}

/// `a` and `b` hold the same result for every collector but `c`.
pub open spec fn agree_except(a: Report, b: Report, c: Collector) -> bool {
    &&& c != Collector::Host ==> a.host == b.host
    &&& c != Collector::System ==> a.system == b.system
    &&& c != Collector::Memory ==> a.memory == b.memory
    &&& c != Collector::Cpu ==> a.cpu == b.cpu
    &&& c != Collector::Disk ==> a.disk == b.disk
    &&& c != Collector::Network ==> a.network == b.network
}

/// One collector's result never changes another collector's text: the
/// exposition is the sections of host, system, memory, cpu, disk and
/// network in that order, and where two reports differ only in collector
/// `c`, every other section is the same, so that the two expositions are
/// equal once `c`'s section is taken out of each.
pub proof fn lemma_independent(a: Report, b: Report, c: Collector)
    requires
        agree_except(a, b, c),
    ensures
        exposition(a) == sections(a)[0] + sections(a)[1] + sections(a)[2] + sections(a)[3]
            + sections(a)[4] + sections(a)[5],
        exposition(b) == sections(b)[0] + sections(b)[1] + sections(b)[2] + sections(b)[3]
            + sections(b)[4] + sections(b)[5],
        forall|k: int| 0 <= k < 6 && k != position(c) ==> #[trigger] sections(a)[k] == sections(b)[k],
        sections(a).remove(position(c)) == sections(b).remove(position(c)),
{
    assert(sections(a).remove(position(c)) =~= sections(b).remove(position(c)));
}

// ---------------------------------------------------------------- values

/// One sample per interface, labelled `device` with its name, whose value
/// is `value` of that interface.
pub open spec fn per_interface(ifs: Seq<InterfaceGauges>, value: spec_fn(InterfaceGauges) -> Seq<char>) -> Seq<Sample> {
    Seq::new(ifs.len(), |i: int| (seq![("device"@, ifs[i].device@)], value(ifs[i])))
}

/// One sample per filesystem, labelled `mountpoint` with its mount point,
/// whose value is `value` of that filesystem.
pub open spec fn per_filesystem(fs: Seq<FilesystemGauges>, value: spec_fn(FilesystemGauges) -> Seq<char>) -> Seq<Sample> {
    Seq::new(fs.len(), |i: int| (seq![("mountpoint"@, fs[i].mount@)], value(fs[i])))
}

/// One sample per core, labelled `cpu` with the decimal core number, whose
/// value is `value` of that core.
pub open spec fn per_core(cores: Seq<CoreGauges>, value: spec_fn(CoreGauges) -> Seq<char>) -> Seq<Sample> {
    Seq::new(cores.len(), |i: int| (seq![("cpu"@, decimal(cores[i].core as nat))], value(cores[i])))
}

/// Each network metric shows, for every interface in order, the counter
/// its name says: bytes, packets, errors and drops received, then bytes,
/// packets, errors and drops transmitted.
pub proof fn lemma_network_values(ifs: Vec<InterfaceGauges>)
    ensures
        network_section(CheckResult::Success(ifs)) == family_text(
            "node_network_receive_bytes_total"@,
            "Bytes received"@,
            per_interface(ifs@, |g: InterfaceGauges| g.receive_bytes@),
        ) + family_text(
            "node_network_receive_packets_total"@,
            "Packets received"@,
            per_interface(ifs@, |g: InterfaceGauges| g.receive_packets@),
        ) + family_text(
            "node_network_receive_errors_total"@,
            "Receive errors"@,
            per_interface(ifs@, |g: InterfaceGauges| g.receive_errors@),
        ) + family_text(
            "node_network_receive_drop_total"@,
            "Receive drops"@,
            per_interface(ifs@, |g: InterfaceGauges| g.receive_drop@),
        ) + family_text(
            "node_network_transmit_bytes_total"@,
            "Bytes transmitted"@,
            per_interface(ifs@, |g: InterfaceGauges| g.transmit_bytes@),
        ) + family_text(
            "node_network_transmit_packets_total"@,
            "Packets transmitted"@,
            per_interface(ifs@, |g: InterfaceGauges| g.transmit_packets@),
        ) + family_text(
            "node_network_transmit_errors_total"@,
            "Transmit errors"@,
            per_interface(ifs@, |g: InterfaceGauges| g.transmit_errors@),
        ) + family_text(
            "node_network_transmit_drop_total"@,
            "Transmit drops"@,
            per_interface(ifs@, |g: InterfaceGauges| g.transmit_drop@),
        ),
{
    let v = ifs@;
    assert(net_samples(v, NetCounter::ReceiveBytes) =~= per_interface(v, |g: InterfaceGauges| g.receive_bytes@));
    assert(net_samples(v, NetCounter::ReceivePackets) =~= per_interface(v, |g: InterfaceGauges| g.receive_packets@));
    assert(net_samples(v, NetCounter::ReceiveErrors) =~= per_interface(v, |g: InterfaceGauges| g.receive_errors@));
    assert(net_samples(v, NetCounter::ReceiveDrop) =~= per_interface(v, |g: InterfaceGauges| g.receive_drop@));
    assert(net_samples(v, NetCounter::TransmitBytes) =~= per_interface(v, |g: InterfaceGauges| g.transmit_bytes@));
    assert(net_samples(v, NetCounter::TransmitPackets) =~= per_interface(v, |g: InterfaceGauges| g.transmit_packets@));
    assert(net_samples(v, NetCounter::TransmitErrors) =~= per_interface(v, |g: InterfaceGauges| g.transmit_errors@));
    assert(net_samples(v, NetCounter::TransmitDrop) =~= per_interface(v, |g: InterfaceGauges| g.transmit_drop@));
}

/// Each filesystem metric shows, for every filesystem in order, the
/// quantity its name says: size, used and available bytes.
pub proof fn lemma_filesystem_values(fs: Vec<FilesystemGauges>)
    ensures
        disk_section(CheckResult::Success(fs)) == family_text(
            "node_filesystem_size_bytes"@,
            "Filesystem size in bytes"@,
            per_filesystem(fs@, |f: FilesystemGauges| f.size_bytes@),
        ) + family_text(
            "node_filesystem_used_bytes"@,
            "Filesystem used bytes"@,
            per_filesystem(fs@, |f: FilesystemGauges| f.used_bytes@),
        ) + family_text(
            "node_filesystem_avail_bytes"@,
            "Filesystem available bytes"@,
            per_filesystem(fs@, |f: FilesystemGauges| f.avail_bytes@),
        ),
{
    let v = fs@;
    assert(fs_samples(v, FsGauge::Size) =~= per_filesystem(v, |f: FilesystemGauges| f.size_bytes@));
    assert(fs_samples(v, FsGauge::Used) =~= per_filesystem(v, |f: FilesystemGauges| f.used_bytes@));
    assert(fs_samples(v, FsGauge::Avail) =~= per_filesystem(v, |f: FilesystemGauges| f.avail_bytes@));
}

/// The cpu metrics: usage, user, system, iowait and idle percent, each one
/// sample, then per core, in order and labelled with the core's number,
/// its usage percent and its idle percent.
pub proof fn lemma_cpu_values(c: CpuGauges)
    ensures
        cpu_section(CheckResult::Success(c)) == gauge_text(
            "node_cpu_usage_percent"@,
            "CPU usage percent"@,
            seq![],
            c.usage_percent@,
        ) + gauge_text("node_cpu_user_percent"@, "CPU user time percent"@, seq![], c.user_percent@)
            + gauge_text(
            "node_cpu_system_percent"@,
            "CPU system time percent"@,
            seq![],
            c.system_percent@,
        ) + gauge_text("node_cpu_iowait_percent"@, "CPU iowait percent"@, seq![], c.iowait_percent@)
            + gauge_text("node_cpu_idle_percent"@, "CPU idle percent"@, seq![], c.idle_percent@)
            + family_text(
            "node_cpu_core_usage_percent"@,
            "Per-core CPU usage percent"@,
            per_core(c.cores@, |g: CoreGauges| g.usage_percent@),
        ) + family_text(
            "node_cpu_core_idle_percent"@,
            "Per-core CPU idle percent"@,
            per_core(c.cores@, |g: CoreGauges| g.idle_percent@),
        ),
{
    let v = c.cores@;
    assert(core_samples(v, CoreGauge::Usage) =~= per_core(v, |g: CoreGauges| g.usage_percent@));
    assert(core_samples(v, CoreGauge::Idle) =~= per_core(v, |g: CoreGauges| g.idle_percent@));
}

} // verus!
