use chell::text::{contains_text, last_non_empty_line, non_empty_lines, parse_u64, split_whitespace, u64_text};

#[test]
fn decimal_text_of_numbers() {
    assert_eq!(u64_text(0), "0");
    assert_eq!(u64_text(7), "7");
    assert_eq!(u64_text(10), "10");
    assert_eq!(u64_text(1234567890123), "1234567890123");
    assert_eq!(u64_text(u64::MAX), "18446744073709551615");
}

#[test]
fn parse_accepts_what_std_accepts() {
    assert_eq!(parse_u64("0"), Some(0));
    assert_eq!(parse_u64("007"), Some(7));
    assert_eq!(parse_u64("+42"), Some(42));
    assert_eq!(parse_u64("18446744073709551615"), Some(u64::MAX));
}

#[test]
fn parse_refuses_what_std_refuses() {
    assert_eq!(parse_u64(""), None);
    assert_eq!(parse_u64("+"), None);
    assert_eq!(parse_u64("-1"), None);
    assert_eq!(parse_u64("12a"), None);
    assert_eq!(parse_u64(" 1"), None);
    assert_eq!(parse_u64("18446744073709551616"), None);
    assert_eq!(parse_u64("99999999999999999999x"), None);
}

#[test]
fn parse_agrees_with_std_on_samples() {
    for s in ["", "+", "-", "+0", "-0", "1", "+12", "x1", "1x", "00", "184467440737095516150", "٣"] {
        assert_eq!(parse_u64(s), s.parse::<u64>().ok(), "on {:?}", s);
    }
}

#[test]
fn rendering_then_parsing_round_trips() {
    for n in [0u64, 1, 9, 10, 99, 100, 123456789, u64::MAX - 1, u64::MAX] {
        assert_eq!(parse_u64(&u64_text(n)), Some(n));
    }
}

#[test]
fn substring_search() {
    assert!(contains_text("hello", "ll"));
    assert!(contains_text("hello", "hello"));
    assert!(contains_text("hello", ""));
    assert!(contains_text("", ""));
    assert!(!contains_text("he", "hello"));
    assert!(!contains_text("hello", "lo!"));
    assert!(contains_text("olá <@12>", "<@12>"));
}

#[test]
fn whitespace_words() {
    assert_eq!(split_whitespace(" a  b\tc\n"), vec!["a", "b", "c"]);
    assert_eq!(split_whitespace(""), Vec::<String>::new());
    assert_eq!(split_whitespace("   "), Vec::<String>::new());
    assert_eq!(split_whitespace("x\u{3000}y\u{a0}z"), vec!["x", "y", "z"]);
    let s = "Eu  gosto\u{2003}de\r\npizza ";
    let expected: Vec<String> = s.split_whitespace().map(|w| w.to_string()).collect();
    assert_eq!(split_whitespace(s), expected);
}

#[test]
fn lines_as_std_splits_them() {
    assert_eq!(non_empty_lines("a\r\nb\n\nc\r"), vec!["a", "b", "c\r"]);
    assert_eq!(non_empty_lines("\n\n"), Vec::<String>::new());
    assert_eq!(non_empty_lines("\r\n"), Vec::<String>::new());
    let s = "data: 1\n\ndata: 2\r\n\r\n\rlast";
    let expected: Vec<String> = s.lines().filter(|l| !l.is_empty()).map(|l| l.to_string()).collect();
    assert_eq!(non_empty_lines(s), expected);
}

#[test]
fn last_line_that_is_not_empty() {
    assert_eq!(last_non_empty_line("x\ny\n\n"), "y");
    assert_eq!(last_non_empty_line(""), "");
    assert_eq!(last_non_empty_line("\n\n"), "");
    assert_eq!(last_non_empty_line("only"), "only");
}
