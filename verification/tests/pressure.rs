use check_my_server::diagnostics::pressure::{parse_line, read_pressure, PressureError, PsiKey, PsiLine};

const MEMORY: &str = "some avg10=0.10 avg60=0.20 avg300=0.30 total=12\nfull avg10=1.00 avg60=2.00 avg300=3.00 total=4\n";

#[test]
fn parse_line_texts() {
    let p = parse_line(MEMORY, "full").unwrap();
    assert_eq!((p.avg10.as_str(), p.avg60.as_str(), p.avg300.as_str()), ("1.00", "2.00", "3.00"));
    let p = parse_line(MEMORY, "some").unwrap();
    assert_eq!(p.avg300, "0.30");
}

#[test]
fn parse_line_errors() {
    assert_eq!(parse_line(MEMORY, "none").unwrap_err().0, PressureError::MissingLine);
    assert_eq!(parse_line("some avg10=1 avg300=2", "some").unwrap_err().0, PressureError::MissingKey(PsiKey::Avg60));
    assert_eq!(parse_line("some avg10=x avg60=1 avg300=2", "some").unwrap_err().0, PressureError::Invalid(PsiKey::Avg10));
}

#[test]
fn read_pressure_reports_first_failure() {
    let cpu = "some avg10=0.00 avg60=0.00 avg300=0.00 total=0\n";
    let r = read_pressure(cpu, MEMORY, MEMORY).unwrap();
    assert_eq!(r.io_full.avg60, "2.00");
    let e = read_pressure(cpu, MEMORY, cpu).unwrap_err();
    assert_eq!(e, (PsiLine::IoFull, (PressureError::MissingLine, String::new())));
}

#[test]
fn invalid_average_carries_its_text() {
    let e = parse_line("some avg10=x avg60=1 avg300=2", "some").unwrap_err();
    assert_eq!(e, (PressureError::Invalid(PsiKey::Avg10), "x".to_string()));
    let e = read_pressure("some avg10=0 avg60=zz avg300=0\n", MEMORY, MEMORY).unwrap_err();
    assert_eq!(e, (PsiLine::CpuSome, (PressureError::Invalid(PsiKey::Avg60), "zz".to_string())));
}
