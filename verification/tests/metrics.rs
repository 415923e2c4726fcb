use check_my_server::diagnostics::host::HostReport;
use check_my_server::metrics;
use check_my_server::metrics::{
    CoreGauges, CpuGauges, FilesystemGauges, InterfaceGauges, MemoryGauges,
    SystemGauges,
};
use check_my_server::{CheckResult, Report};

fn skip<T>() -> CheckResult<T> {
    CheckResult::Failure { error: "skip".into() }
}

fn text(v: f64) -> String {
    format!("{}", v)
}

#[test]
fn test_format_per_core_metrics() {
    let cpu_report = CpuGauges {
        usage_percent: text(30.0),
        user_percent: text(20.0),
        system_percent: text(10.0),
        iowait_percent: text(0.0),
        idle_percent: text(70.0),
        cores: vec![
            CoreGauges { core: 0, usage_percent: text(25.0), idle_percent: text(75.0) },
            CoreGauges { core: 1, usage_percent: text(35.0), idle_percent: text(65.0) },
        ],
    };
    let report = Report {
        host: skip(),
        system: skip(),
        memory: skip(),
        cpu: CheckResult::Success(cpu_report),
        disk: skip(),
        network: skip(),
    };
    let out = metrics::format(report);
    assert!(out.contains(r#"node_cpu_core_usage_percent{cpu="0"} 25"#), "got: {out}");
    assert!(out.contains(r#"node_cpu_core_usage_percent{cpu="1"} 35"#), "got: {out}");
    assert!(out.contains(r#"node_cpu_core_idle_percent{cpu="0"} 75"#), "got: {out}");
    assert!(out.contains(r#"node_cpu_core_idle_percent{cpu="1"} 65"#), "got: {out}");
}

#[test]
fn hdr_line_and_g() {
    let mut out = String::new();
    metrics::hdr(&mut out, "m", "Help text");
    assert_eq!(out, "# HELP m Help text\n# TYPE m gauge\n");
    let mut out = String::new();
    metrics::line(&mut out, "m", &[], "1.5");
    metrics::line(&mut out, "m", &[("a", "x"), ("b", "y")], "2");
    assert_eq!(out, "m 1.5\nm{a=\"x\",b=\"y\"} 2\n");
    let mut out = String::new();
    metrics::g(&mut out, "up", "Up", &[("k", "v")], "1");
    assert_eq!(out, "# HELP up Up\n# TYPE up gauge\nup{k=\"v\"} 1\n");
}

#[test]
fn failures_leave_comments_in_place() {
    let report = Report {
        host: CheckResult::Failure { error: "uname syscall failed".into() },
        system: skip(),
        memory: skip(),
        cpu: skip(),
        disk: skip(),
        network: skip(),
    };
    assert_eq!(
        metrics::format(report),
        "# collector error: host: uname syscall failed\n# collector error: system: skip\n# collector error: memory: skip\n# collector error: cpu: skip\n# collector error: disk: skip\n# collector error: network: skip\n"
    );
}

#[test]
fn full_report() {
    let report = Report {
        host: CheckResult::Success(HostReport {
            hostname: "box".into(),
            os_type: "Linux".into(),
            kernel_release: "6.1".into(),
            kernel_version: "#1".into(),
            arch: "x86_64".into(),
            packages: Some(3),
            package_manager: Some("apk".into()),
        }),
        system: CheckResult::Success(SystemGauges {
            uptime_seconds: "97585.07".into(),
            load_avg_1: "1.38".into(),
            load_avg_5: "1.04".into(),
            load_avg_15: "1.07".into(),
            running_procs: "2".into(),
            total_procs: "847".into(),
            open_fds: "11686".into(),
            max_fds: "9223372036854775808".into(),
        }),
        memory: CheckResult::Success(MemoryGauges {
            total_bytes: "1024".into(),
            available_bytes: "512".into(),
            used_bytes: "512".into(),
            swap_total_bytes: "0".into(),
            swap_free_bytes: "0".into(),
            swap_used_bytes: "0".into(),
        }),
        cpu: skip(),
        disk: CheckResult::Success(vec![FilesystemGauges {
            mount: "/".into(),
            size_bytes: "4096".into(),
            used_bytes: "1024".into(),
            avail_bytes: "3072".into(),
        }]),
        network: CheckResult::Success(vec![InterfaceGauges {
            device: "eth0".into(),
            receive_bytes: "1".into(),
            receive_packets: "2".into(),
            receive_errors: "3".into(),
            receive_drop: "4".into(),
            transmit_bytes: "5".into(),
            transmit_packets: "6".into(),
            transmit_errors: "7".into(),
            transmit_drop: "8".into(),
        }]),
    };
    let out = metrics::format(report);
    assert!(out.starts_with("# HELP node_uname_info System information\n# TYPE node_uname_info gauge\nnode_uname_info{hostname=\"box\",os_type=\"Linux\",kernel_release=\"6.1\",arch=\"x86_64\"} 1\n"));
    assert!(out.contains("# HELP node_uptime_seconds System uptime in seconds\n# TYPE node_uptime_seconds gauge\nnode_uptime_seconds 97585.07\n"));
    assert!(out.contains("node_filefd_maximum 9223372036854775808\n"));
    assert!(out.contains("node_memory_used_bytes 512\n"));
    assert!(out.contains("# collector error: cpu: skip\n"));
    assert!(out.contains("# HELP node_filesystem_avail_bytes Filesystem available bytes\n# TYPE node_filesystem_avail_bytes gauge\nnode_filesystem_avail_bytes{mountpoint=\"/\"} 3072\n"));
    assert!(out.ends_with("# HELP node_network_transmit_drop_total Transmit drops\n# TYPE node_network_transmit_drop_total gauge\nnode_network_transmit_drop_total{device=\"eth0\"} 8\n"));
}

#[test]
fn core_numbers_are_decimal() {
    let cpu = CpuGauges {
        usage_percent: "1".into(),
        user_percent: "1".into(),
        system_percent: "1".into(),
        iowait_percent: "1".into(),
        idle_percent: "1".into(),
        cores: vec![CoreGauges { core: 1207, usage_percent: "0".into(), idle_percent: "100".into() }],
    };
    let report = Report { host: skip(), system: skip(), memory: skip(), cpu: CheckResult::Success(cpu), disk: skip(), network: skip() };
    let out = metrics::format(report);
    assert!(out.contains("node_cpu_core_idle_percent{cpu=\"1207\"} 100\n"));
}

fn report_with_memory(memory: CheckResult<MemoryGauges>) -> Report {
    Report {
        host: CheckResult::Failure { error: "uname syscall failed".into() },
        system: CheckResult::Success(SystemGauges {
            uptime_seconds: "5".into(),
            load_avg_1: "0.5".into(),
            load_avg_5: "0.25".into(),
            load_avg_15: "0.125".into(),
            running_procs: "1".into(),
            total_procs: "100".into(),
            open_fds: "10".into(),
            max_fds: "1000".into(),
        }),
        memory,
        cpu: skip(),
        disk: CheckResult::Success(vec![
            FilesystemGauges { mount: "/".into(), size_bytes: "4".into(), used_bytes: "1".into(), avail_bytes: "3".into() },
            FilesystemGauges { mount: "/home".into(), size_bytes: "8".into(), used_bytes: "2".into(), avail_bytes: "6".into() },
        ]),
        network: CheckResult::Success(vec![]),
    }
}

fn memory_gauges() -> MemoryGauges {
    MemoryGauges {
        total_bytes: "1024".into(),
        available_bytes: "512".into(),
        used_bytes: "512".into(),
        swap_total_bytes: "0".into(),
        swap_free_bytes: "0".into(),
        swap_used_bytes: "0".into(),
    }
}

#[test]
fn every_metric_has_one_header_then_its_samples() {
    let out = metrics::format(report_with_memory(CheckResult::Success(memory_gauges())));
    assert!(out.ends_with('\n'));
    let lines: Vec<&str> = out.lines().collect();
    let mut seen: Vec<String> = Vec::new();
    let mut i = 0;
    while i < lines.len() {
        let l = lines[i];
        if l.starts_with("# collector error: ") {
            i += 1;
            continue;
        }
        let rest = l.strip_prefix("# HELP ").expect(l);
        let name = rest.split(' ').next().unwrap().to_string();
        assert!(!seen.contains(&name), "{name} twice");
        assert_eq!(lines[i + 1], format!("# TYPE {name} gauge"));
        i += 2;
        while i < lines.len() && !lines[i].starts_with('#') {
            let after = lines[i].strip_prefix(name.as_str()).expect(lines[i]);
            assert!(after.starts_with(' ') || after.starts_with('{'));
            i += 1;
        }
        seen.push(name);
    }
    assert_eq!(seen.len(), 8 + 6 + 3 + 8);
}

fn without_memory(out: &str) -> Vec<String> {
    out.lines()
        .filter(|l| {
            let l = l.trim_start_matches("# HELP ").trim_start_matches("# TYPE ");
            !l.starts_with("node_memory") && !l.starts_with("node_swap") && !l.starts_with("# collector error: memory")
        })
        .map(|l| l.to_string())
        .collect()
}

#[test]
fn one_collector_leaves_the_others_alone() {
    let ok = metrics::format(report_with_memory(CheckResult::Success(memory_gauges())));
    let failed = metrics::format(report_with_memory(CheckResult::Failure { error: "no meminfo".into() }));
    let mut other = memory_gauges();
    other.used_bytes = "1000".into();
    let changed = metrics::format(report_with_memory(CheckResult::Success(other)));
    assert_ne!(ok, failed);
    assert_ne!(ok, changed);
    assert_eq!(without_memory(&ok), without_memory(&failed));
    assert_eq!(without_memory(&ok), without_memory(&changed));
    assert!(failed.contains("# collector error: memory: no meminfo\n"));
    let host = ok.find("# collector error: host").unwrap();
    let system = ok.find("# HELP node_uptime_seconds").unwrap();
    let memory = ok.find("# HELP node_memory_total_bytes").unwrap();
    let cpu = ok.find("# collector error: cpu").unwrap();
    let disk = ok.find("# HELP node_filesystem_size_bytes").unwrap();
    assert!(host < system && system < memory && memory < cpu && cpu < disk);
}
