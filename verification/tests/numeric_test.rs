use qubwic::numeric::{decimal_bytes, decimal_string, parse_bool, parse_digits, parse_unsigned};

#[test]
fn renders_decimal() {
    assert_eq!(decimal_string(0), "0");
    assert_eq!(decimal_string(7), "7");
    assert_eq!(decimal_string(1350), "1350");
    assert_eq!(decimal_string(u64::MAX), u64::MAX.to_string());
    assert_eq!(decimal_bytes(200), b"200".to_vec());
}

#[test]
fn parses_unsigned_like_str_parse() {
    assert_eq!(parse_unsigned("42", u64::MAX), Some(42));
    assert_eq!(parse_unsigned("+42", u64::MAX), Some(42));
    assert_eq!(parse_unsigned("007", u64::MAX), Some(7));
    assert_eq!(parse_unsigned("+", u64::MAX), None);
    assert_eq!(parse_unsigned("", u64::MAX), None);
    assert_eq!(parse_unsigned("-1", u64::MAX), None);
    assert_eq!(parse_unsigned("1 ", u64::MAX), None);
    assert_eq!(parse_unsigned("18446744073709551615", u64::MAX), Some(u64::MAX));
    assert_eq!(parse_unsigned("18446744073709551616", u64::MAX), None);
    assert_eq!(parse_unsigned("65536", 65535), None);
    for s in ["0", "12", "+3", "99999999999999999999", "x", "++1"] {
        assert_eq!(parse_unsigned(s, u64::MAX), s.parse::<u64>().ok());
    }
}

#[test]
fn parses_digit_runs() {
    let b = b"ab123cd";
    assert_eq!(parse_digits(b, 2, 5, 1000), Some(123));
    assert_eq!(parse_digits(b, 2, 5, 100), None);
    assert_eq!(parse_digits(b, 2, 2, 100), None);
    assert_eq!(parse_digits(b, 1, 5, 1000), None);
}

#[test]
fn parses_bool_like_str_parse() {
    assert_eq!(parse_bool("true"), Some(true));
    assert_eq!(parse_bool("false"), Some(false));
    assert_eq!(parse_bool("True"), None);
    assert_eq!(parse_bool("1"), None);
}

#[test]
fn rendering_reads_back() {
    for n in [0u64, 9, 10, 1200, 65535, u64::MAX] {
        let b = decimal_bytes(n);
        assert_eq!(parse_digits(&b, 0, b.len(), u64::MAX), Some(n));
    }
}
