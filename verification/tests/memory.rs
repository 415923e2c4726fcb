use check_my_server::diagnostics::memory::{parse_kb, parse_meminfo};

#[test]
fn test_parse_kb_valid() {
    assert_eq!(parse_kb("MemTotal:       16255592 kB", "MemTotal:"), Some(16255592));
}

#[test]
fn test_parse_kb_wrong_key() {
    assert_eq!(parse_kb("MemTotal:       16255592 kB", "MemFree:"), None);
}

#[test]
fn test_parse_kb_malformed() {
    assert_eq!(parse_kb("MemTotal:       abc kB", "MemTotal:"), None);
}

#[test]
fn parse_kb_needs_the_unit() {
    assert_eq!(parse_kb("MemTotal: 5", "MemTotal:"), None);
    assert_eq!(parse_kb("MemTotal:5kB", "MemTotal:"), Some(5));
    assert_eq!(parse_kb("MemTotal: 18446744073709551616 kB", "MemTotal:"), None);
}

#[test]
fn parse_meminfo_fields_and_used() {
    let content = "MemTotal:       1000 kB\nMemFree:         100 kB\nMemAvailable:    400 kB\nSwapTotal:       50 kB\nSwapFree:        80 kB\n";
    let m = parse_meminfo(content);
    assert_eq!(m.total_kb, 1000);
    assert_eq!(m.available_kb, 400);
    assert_eq!(m.used_kb, 600);
    assert_eq!(m.used_kb + m.available_kb, m.total_kb);
    assert_eq!(m.swap_total_kb, 50);
    assert_eq!(m.swap_free_kb, 80);
    assert_eq!(m.swap_used_kb, 0);
}

#[test]
fn parse_meminfo_last_line_wins_and_missing_is_zero() {
    let m = parse_meminfo("MemTotal: 1 kB\nMemTotal: 2 kB\nMemTotal: bad kB\n");
    assert_eq!(m.total_kb, 2);
    assert_eq!(m.available_kb, 0);
    assert_eq!(m.used_kb, 2);
}

#[test]
fn parse_kb_reads_back_a_written_line() {
    for v in [0u64, 7, 42, 16255592, u64::MAX] {
        let line = format!("MemFree:   {v} kB");
        assert_eq!(parse_kb(&line, "MemFree:"), Some(v));
        let line = format!("SwapFree:\t{v}\tkB  \n");
        assert_eq!(parse_kb(&line, "SwapFree:"), Some(v));
    }
}

#[test]
fn parse_kb_value_means_key_and_unit() {
    for line in ["MemFree: 12 kB", "MemFree:12kB \t", "MemFree: x kB", "Mem: 1 kB", "MemFree: 1 MB"] {
        if parse_kb(line, "MemFree:").is_some() {
            assert!(line.starts_with("MemFree:"));
            assert!(line.trim_end().ends_with("kB"));
        }
    }
}
