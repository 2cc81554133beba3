use hyper_scheduler::parse::{
    lowercase_equals, parse_decimal, parse_i32, parse_i64, parse_u128, parse_u64, parse_usize,
};

#[test]
fn parses_like_std_u64() {
    for s in ["0", "42", "+7", "007", "18446744073709551615", "18446744073709551616", "-1", "", "+", "-", "1 ", " 1", "1a", "\u{663}"] {
        assert_eq!(parse_u64(s), s.parse::<u64>().ok(), "{:?}", s);
    }
}

#[test]
fn parses_like_std_signed() {
    for s in ["-2147483648", "2147483647", "2147483648", "-2147483649", "-0", "+0", "-", "--1", "+-1", "12"] {
        assert_eq!(parse_i32(s), s.parse::<i32>().ok(), "{:?}", s);
    }
    for s in ["-9223372036854775808", "9223372036854775807", "9223372036854775808", "-9223372036854775809", "-5"] {
        assert_eq!(parse_i64(s), s.parse::<i64>().ok(), "{:?}", s);
    }
}

#[test]
fn parses_like_std_wide() {
    for s in ["340282366920938463463374607431768211455", "340282366920938463463374607431768211456", "99999999999999999999999999999999999999999999", "1"] {
        assert_eq!(parse_u128(s), s.parse::<u128>().ok(), "{:?}", s);
    }
    for s in ["3", "18446744073709551616", "-3", "x"] {
        assert_eq!(parse_usize(s), s.parse::<usize>().ok(), "{:?}", s);
    }
}

#[test]
fn decimal_sign_and_magnitude() {
    assert_eq!(parse_decimal("-12", true), Some((true, 12)));
    assert_eq!(parse_decimal("-12", false), None);
    assert_eq!(parse_decimal("+12", false), Some((false, 12)));
    assert_eq!(parse_decimal("", true), None);
}

#[test]
fn lowercase_comparison() {
    assert!(lowercase_equals("VoId", b"void"));
    assert!(lowercase_equals("i32", b"i32"));
    assert!(!lowercase_equals("i32 ", b"i32"));
    assert!(!lowercase_equals("I64", b"i32"));
}
