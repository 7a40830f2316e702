use voltguard::text::{
    chars_of, decimal_string, parse_unsigned_chars, string_of, trim_chars, IntErrorKind,
};

fn parse_u64(s: &str) -> Result<u64, IntErrorKind> {
    parse_unsigned_chars(&chars_of(s), u64::MAX)
}

#[test]
fn chars_round_trip_through_string() {
    let v = chars_of("héllo");
    assert_eq!(v, vec!['h', 'é', 'l', 'l', 'o']);
    assert_eq!(string_of(&v), "héllo");
}

#[test]
fn trim_removes_unicode_whitespace_at_both_ends() {
    let t = trim_chars(&chars_of("\u{3000} \t 0-7 \n\u{a0}"));
    assert_eq!(string_of(&t), "0-7");
    let t = trim_chars(&chars_of(" \n\t "));
    assert!(t.is_empty());
    let t = trim_chars(&chars_of("a b"));
    assert_eq!(string_of(&t), "a b");
}

#[test]
fn parse_matches_std_on_plain_numbers() {
    for s in ["0", "7", "42", "18446744073709551615", "+5", "007"] {
        assert_eq!(parse_u64(s).ok(), s.parse::<u64>().ok(), "{s}");
    }
}

#[test]
fn parse_errors_match_std_kinds() {
    assert_eq!(parse_u64(""), Err(IntErrorKind::Empty));
    assert_eq!(parse_u64("+"), Err(IntErrorKind::InvalidDigit));
    assert_eq!(parse_u64("-"), Err(IntErrorKind::InvalidDigit));
    assert_eq!(parse_u64("-1"), Err(IntErrorKind::InvalidDigit));
    assert_eq!(parse_u64("12a"), Err(IntErrorKind::InvalidDigit));
    assert_eq!(parse_u64(" 1"), Err(IntErrorKind::InvalidDigit));
    assert_eq!(parse_u64("18446744073709551616"), Err(IntErrorKind::PosOverflow));
    assert_eq!(parse_u64("99999999999999999999x"), Err(IntErrorKind::PosOverflow));
    assert_eq!(
        parse_unsigned_chars(&chars_of("4294967296"), u32::MAX as u64),
        Err(IntErrorKind::PosOverflow)
    );
    assert_eq!(
        parse_unsigned_chars(&chars_of("4294967295"), u32::MAX as u64),
        Ok(4294967295)
    );
}

#[test]
fn parse_error_messages_match_std() {
    assert_eq!(IntErrorKind::Empty.message(), "".parse::<u64>().unwrap_err().to_string());
    assert_eq!(
        IntErrorKind::InvalidDigit.message(),
        "x".parse::<u64>().unwrap_err().to_string()
    );
    assert_eq!(
        IntErrorKind::PosOverflow.message(),
        "99999999999999999999".parse::<u64>().unwrap_err().to_string()
    );
}

#[test]
fn decimal_string_matches_to_string() {
    for n in [0u64, 9, 10, 99, 100, 12345, u64::MAX] {
        assert_eq!(decimal_string(n), n.to_string());
    }
}

#[test]
fn decimal_text_parses_back() {
    for n in [0u64, 1, 10, 4096, u64::MAX] {
        assert_eq!(parse_u64(&decimal_string(n)), Ok(n));
    }
}
