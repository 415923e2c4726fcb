use check_my_server::numbers::{float_literal, read_u32, read_u64};
use check_my_server::text::{chars_of, split_lines, split_words, trim_chars};

fn s(v: &[char]) -> String {
    v.iter().collect()
}

#[test]
fn words_like_split_whitespace() {
    let c = chars_of("  a\tbc \u{A0}d\u{3000}\n");
    let w: Vec<String> = split_words(&c).into_iter().map(s).collect();
    assert_eq!(w, vec!["a", "bc", "d"]);
}

#[test]
fn lines_like_str_lines() {
    for text in ["a\n\nb", "a\r\nb\r\n", "x\r", "\n", "", "a\rb\n"] {
        let c = chars_of(text);
        let got: Vec<String> = split_lines(&c).into_iter().map(s).collect();
        let want: Vec<String> = text.lines().map(|l| l.to_string()).collect();
        assert_eq!(got, want, "{text:?}");
    }
}

#[test]
fn trim_like_str_trim() {
    let c = chars_of(" \u{2003}x y\t ");
    assert_eq!(s(trim_chars(&c)), "x y");
}

#[test]
fn unsigned_parsing_like_str_parse() {
    for text in ["0", "+7", "18446744073709551615", "18446744073709551616", "", "+", "-1", "1 ", "0x10", "007"] {
        let c = chars_of(text);
        assert_eq!(read_u64(&c), text.parse::<u64>().ok(), "{text:?}");
        assert_eq!(read_u32(&c), text.parse::<u32>().ok(), "{text:?}");
    }
}

#[test]
fn float_syntax_like_str_parse() {
    for text in [
        "1", "1.", ".5", "1.5", "-2e10", "+3E-4", "1e", "e1", ".", "", "inf", "-Infinity", "NaN",
        "nan1", "1.2.3", "1e+", "--1", " 1", "0.00", "1_0", "infinit",
    ] {
        let c = chars_of(text);
        assert_eq!(float_literal(&c), text.parse::<f64>().is_ok(), "{text:?}");
    }
}
