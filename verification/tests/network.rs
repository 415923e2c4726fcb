use check_my_server::diagnostics::network::{parse_line, parse_net_dev};

#[test]
fn test_parse_line_valid() {
    let line = " wlan0: 2055925546 1568050    0    0    0     0          0         0 95610723  214919    0    0    0     0       0          0";
    let entry = parse_line(line).unwrap();
    assert_eq!(entry.interface, "wlan0");
    assert_eq!(entry.rx_bytes, 2055925546);
    assert_eq!(entry.rx_packets, 1568050);
    assert_eq!(entry.rx_errors, 0);
    assert_eq!(entry.tx_bytes, 95610723);
    assert_eq!(entry.tx_packets, 214919);
}

#[test]
fn test_parse_line_no_colon() {
    assert!(parse_line("no colon here").is_none());
}

#[test]
fn test_parse_line_too_short() {
    assert!(parse_line("eth0: 1 2 3").is_none());
}

#[test]
fn parse_line_counter_positions_and_bad_fields() {
    let e = parse_line("eth1:1 2 3 4 5 6 7 8 9 10 11 x").unwrap();
    assert_eq!(e.interface, "eth1");
    assert_eq!((e.rx_bytes, e.rx_packets, e.rx_errors, e.rx_dropped), (1, 2, 3, 4));
    assert_eq!((e.tx_bytes, e.tx_packets, e.tx_errors, e.tx_dropped), (9, 10, 11, 0));
}

#[test]
fn parse_net_dev_skips_headers_and_loopback() {
    let content = "Inter-|   Receive\n face |bytes\n    lo: 1 1 0 0 0 0 0 0 1 1 0 0 0 0 0 0\n  eth0: 5 6 0 0 0 0 0 0 7 8 0 0 0 0 0 0\nbroken\n";
    let r = parse_net_dev(content);
    assert_eq!(r.interfaces.len(), 1);
    assert_eq!(r.interfaces[0].interface, "eth0");
    assert_eq!(r.interfaces[0].rx_bytes, 5);
    assert_eq!(r.interfaces[0].tx_packets, 8);
    assert!(parse_net_dev("eth0: 1 2 3 4 5 6 7 8 9 10 11 12\n").interfaces.is_empty());
}
