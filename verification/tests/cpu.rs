use check_my_server::diagnostics::cpu::{
    can_compare, collect, collect_pair, CpuStep, compute_report, parse_stat, parse_stat_line, stat_fits_u64,
    stat_line_fits_u64, CpuError, FullSnapshot, StatError, StatSnapshot,
};

fn snap(user: u64, system: u64, idle: u64, iowait: u64, total: u64) -> StatSnapshot {
    StatSnapshot { user, system, idle, iowait, total }
}

#[test]
fn test_parse_stat_line() {
    let line = "cpu  100 20 50 800 10 0 0 0 0 0";
    let s = parse_stat_line(line);
    assert_eq!(s.user, 120); // user + nice
    assert_eq!(s.system, 50);
    assert_eq!(s.idle, 800);
    assert_eq!(s.iowait, 10);
    assert_eq!(s.total, 980); // sum of all fields
}

#[test]
fn test_parse_stat_line_zeros() {
    let s = parse_stat_line("cpu  0 0 0 0 0 0 0 0 0 0");
    assert_eq!(s.total, 0);
}

#[test]
fn parse_stat_line_short_and_garbage_fields() {
    let s = parse_stat_line("cpu3 7 x 5");
    assert_eq!(s, snap(7, 5, 0, 0, 12));
    let s = parse_stat_line("");
    assert_eq!(s, snap(0, 0, 0, 0, 0));
}

#[test]
fn stat_line_overflow_is_detected() {
    assert!(stat_line_fits_u64("cpu 18446744073709551615 0"));
    assert!(!stat_line_fits_u64("cpu 18446744073709551615 1"));
}

#[test]
fn parse_stat_reads_aggregate_and_cores() {
    let content = "cpu  10 0 5 100 1 0 0 0\ncpu0 5 0 2 50 1\ncpu1 5 0 3 50 0\nintr 1 2 3\ncpu2 9 9 9 9\n";
    assert!(stat_fits_u64(content));
    let f = parse_stat(content).unwrap();
    assert_eq!(f.agg, snap(10, 5, 100, 1, 116));
    assert_eq!(f.cores.len(), 2);
    assert_eq!(f.cores[0], snap(5, 2, 50, 1, 58));
    assert_eq!(f.cores[1], snap(5, 3, 50, 0, 58));
}

#[test]
fn parse_stat_empty_is_an_error() {
    assert_eq!(parse_stat("").unwrap_err(), StatError::Empty);
    let f = parse_stat("\n").unwrap();
    assert_eq!(f.agg.total, 0);
    assert!(f.cores.is_empty());
}

#[test]
fn parse_stat_cpu_without_digit_ends_cores() {
    let f = parse_stat("cpu 1\ncpux 2\ncpu0 3\n").unwrap();
    assert!(f.cores.is_empty());
}

fn with_cores() -> (FullSnapshot, FullSnapshot) {
    let a = FullSnapshot {
        agg: snap(100, 50, 800, 10, 980),
        cores: vec![snap(50, 25, 400, 5, 490), snap(50, 25, 400, 5, 490)],
    };
    let b = FullSnapshot {
        agg: snap(200, 100, 1600, 20, 1960),
        cores: vec![snap(100, 50, 800, 10, 980), snap(100, 50, 800, 10, 980)],
    };
    (a, b)
}

#[test]
fn test_compute_report_with_cores() {
    let (a, b) = with_cores();
    let r = compute_report(&a, &b).unwrap();
    assert_eq!(r.cores.len(), 2);
    assert_eq!(r.cores[0].core, 0);
    assert_eq!(r.cores[1].core, 1);
    let expected_idle = (400.0_f64 / 490.0) * 100.0;
    let idle_percent = (r.cores[0].idle as f64 / r.cores[0].total as f64) * 100.0;
    let usage_percent = 100.0 - idle_percent;
    assert!((idle_percent - expected_idle).abs() < 0.001);
    assert!((usage_percent - (100.0 - expected_idle)).abs() < 0.001);
}

#[test]
fn test_compute_report_no_cores() {
    let a = FullSnapshot { agg: snap(100, 50, 800, 10, 980), cores: vec![] };
    let b = FullSnapshot { agg: snap(200, 100, 1600, 20, 1960), cores: vec![] };
    let r = compute_report(&a, &b).unwrap();
    assert!(r.cores.is_empty());
}

#[test]
fn compute_report_ticks() {
    let (a, b) = with_cores();
    let r = compute_report(&a, &b).unwrap();
    assert_eq!(r.total, 980);
    assert_eq!(r.user, 100);
    assert_eq!(r.system, 50);
    assert_eq!(r.iowait, 10);
    assert_eq!(r.idle, 800);
    assert_eq!(r.cores[1].total, 490);
    assert_eq!(r.cores[1].idle, 400);
}

#[test]
fn compute_report_zero_delta() {
    let (a, _) = with_cores();
    let (b, _) = with_cores();
    assert_eq!(compute_report(&a, &b).unwrap_err(), CpuError::ZeroDelta);
}

#[test]
fn compute_report_pairs_shared_cores_and_idle_core() {
    let a = FullSnapshot { agg: snap(0, 0, 0, 0, 10), cores: vec![snap(0, 0, 7, 0, 5), snap(1, 1, 1, 1, 4)] };
    let b = FullSnapshot { agg: snap(0, 0, 0, 0, 20), cores: vec![snap(0, 0, 3, 0, 5)] };
    assert!(can_compare(&a, &b));
    let r = compute_report(&a, &b).unwrap();
    assert_eq!(r.cores.len(), 1);
    assert_eq!(r.cores[0].total, 0);
    assert_eq!(r.cores[0].idle, 0);
}

#[test]
fn can_compare_detects_counters_going_back() {
    let (a, b) = with_cores();
    assert!(can_compare(&a, &b));
    assert!(!can_compare(&b, &a));
}

#[test]
fn collect_compares_with_previous_reading() {
    let (a, b) = with_cores();
    let mut baseline = None;
    assert!(matches!(collect(&mut baseline, a), CpuStep::SampleTwice));
    assert!(baseline.is_none());
    let (a, b) = with_cores();
    let r = collect_pair(&mut baseline, a, b).unwrap();
    assert_eq!(r.total, 980);
    assert_eq!(baseline.as_ref().unwrap().agg.total, 1960);
    let (a, b) = with_cores();
    let mut baseline = Some(a);
    match collect(&mut baseline, b) {
        CpuStep::Compared(r) => assert_eq!(r.unwrap().total, 980),
        CpuStep::SampleTwice => panic!("a baseline was there"),
    }
    assert_eq!(baseline.as_ref().unwrap().agg.total, 1960);
}

#[test]
fn collect_keeps_new_reading_after_failed_comparison() {
    let (a, _) = with_cores();
    let (same, _) = with_cores();
    let mut baseline = Some(a);
    match collect(&mut baseline, same) {
        CpuStep::Compared(r) => assert_eq!(r.unwrap_err(), CpuError::ZeroDelta),
        CpuStep::SampleTwice => panic!("a baseline was there"),
    }
    assert_eq!(baseline.unwrap().agg.total, 980);
}

#[test]
fn named_counters_within_total() {
    for line in ["cpu  100 20 50 800 10 0 0 0 0 0", "cpu1 1 2", "cpu 5 5 5 5 5 5 5", "cpu"] {
        let s = parse_stat_line(line);
        assert!(s.user + s.system + s.idle + s.iowait <= s.total, "{line}");
    }
}
