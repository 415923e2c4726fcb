use check_my_server::diagnostics::system::{
    parse_file_nr, parse_loadavg, parse_uptime, SystemError, SystemField,
};

#[test]
fn test_parse_uptime() {
    let secs: f64 = parse_uptime("97585.07 59181.27").unwrap().parse().unwrap();
    assert!((secs - 97585.07).abs() < 0.01);
}

#[test]
fn test_parse_uptime_empty() {
    assert!(parse_uptime("").is_err());
}

#[test]
fn parse_uptime_errors() {
    assert_eq!(parse_uptime("  \n").unwrap_err().0, SystemError::Missing(SystemField::Uptime));
    assert_eq!(parse_uptime("12x 3").unwrap_err().0, SystemError::Invalid(SystemField::Uptime));
    assert_eq!(parse_uptime("1e3").unwrap(), "1e3");
    assert_eq!(parse_uptime("-inf").unwrap(), "-inf");
}

#[test]
fn test_parse_loadavg() {
    let (l1, l5, l15, run, total) = parse_loadavg("1.38 1.04 1.07 2/847 12345").unwrap();
    let (l1, l5, l15): (f64, f64, f64) = (l1.parse().unwrap(), l5.parse().unwrap(), l15.parse().unwrap());
    assert!((l1 - 1.38).abs() < 0.001);
    assert!((l5 - 1.04).abs() < 0.001);
    assert!((l15 - 1.07).abs() < 0.001);
    assert_eq!(run, 2);
    assert_eq!(total, 847);
}

#[test]
fn test_parse_loadavg_malformed() {
    assert!(parse_loadavg("1.0 2.0 3.0 bad").is_err());
}

#[test]
fn parse_loadavg_errors_in_field_order() {
    assert_eq!(parse_loadavg("").unwrap_err().0, SystemError::Missing(SystemField::Load1));
    assert_eq!(parse_loadavg("x").unwrap_err().0, SystemError::Invalid(SystemField::Load1));
    assert_eq!(parse_loadavg("1 2").unwrap_err().0, SystemError::Missing(SystemField::Load15));
    assert_eq!(parse_loadavg("1 2 .").unwrap_err().0, SystemError::Invalid(SystemField::Load15));
    assert_eq!(parse_loadavg("1 2 3").unwrap_err().0, SystemError::Missing(SystemField::Procs));
    assert_eq!(parse_loadavg("1 2 3 bad").unwrap_err().0, SystemError::Invalid(SystemField::Procs));
    assert_eq!(parse_loadavg("1 2 3 a/4").unwrap_err().0, SystemError::Invalid(SystemField::Running));
    assert_eq!(parse_loadavg("1 2 3 1/4294967296").unwrap_err().0, SystemError::Invalid(SystemField::Total));
}

#[test]
fn test_parse_file_nr() {
    let (open, max) = parse_file_nr("11686\t0\t9223372036854775807").unwrap();
    assert_eq!(open, 11686);
    assert_eq!(max, 9223372036854775807);
}

#[test]
fn parse_file_nr_errors() {
    assert_eq!(parse_file_nr("").unwrap_err().0, SystemError::Missing(SystemField::OpenFds));
    assert_eq!(parse_file_nr("-1 0 5").unwrap_err().0, SystemError::Invalid(SystemField::OpenFds));
    assert_eq!(parse_file_nr("1 0").unwrap_err().0, SystemError::Missing(SystemField::MaxFds));
    assert_eq!(parse_file_nr("1 0 x").unwrap_err().0, SystemError::Invalid(SystemField::MaxFds));
    assert_eq!(parse_file_nr("+1 zz 2").unwrap(), (1, 2));
}

#[test]
fn errors_carry_the_offending_text() {
    assert_eq!(parse_uptime("12x 3").unwrap_err(), (SystemError::Invalid(SystemField::Uptime), "12x".to_string()));
    assert_eq!(parse_uptime("").unwrap_err(), (SystemError::Missing(SystemField::Uptime), String::new()));
    assert_eq!(parse_loadavg("1 2 3 bad").unwrap_err().1, "bad");
    assert_eq!(parse_loadavg("1 2 3 a/4").unwrap_err().1, "a");
    assert_eq!(parse_loadavg("1 2 3 1/4294967296").unwrap_err().1, "4294967296");
    assert_eq!(parse_file_nr("1 0 x").unwrap_err().1, "x");
}
