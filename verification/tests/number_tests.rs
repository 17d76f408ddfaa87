use esp_examples::number::{parse_i32, parse_u32, parse_u64};

#[test]
fn parse_u64_reads_digits() {
    assert_eq!(parse_u64(b"0"), Some(0));
    assert_eq!(parse_u64(b"42"), Some(42));
    assert_eq!(parse_u64(b"+7"), Some(7));
    assert_eq!(parse_u64(b"18446744073709551615"), Some(u64::MAX));
}

#[test]
fn parse_u64_refuses_what_from_str_refuses() {
    assert_eq!(parse_u64(b""), None);
    assert_eq!(parse_u64(b"+"), None);
    assert_eq!(parse_u64(b"-1"), None);
    assert_eq!(parse_u64(b"1 "), None);
    assert_eq!(parse_u64(b"0.5"), None);
    assert_eq!(parse_u64(b"18446744073709551616"), None);
}

#[test]
fn parse_u32_limits() {
    assert_eq!(parse_u32(b"4294967295"), Some(u32::MAX));
    assert_eq!(parse_u32(b"4294967296"), None);
    assert_eq!(parse_u32(b"100"), Some(100));
}

#[test]
fn parse_i32_signs_and_limits() {
    assert_eq!(parse_i32(b"10"), Some(10));
    assert_eq!(parse_i32(b"-3"), Some(-3));
    assert_eq!(parse_i32(b"+3"), Some(3));
    assert_eq!(parse_i32(b"-2147483648"), Some(i32::MIN));
    assert_eq!(parse_i32(b"2147483647"), Some(i32::MAX));
    assert_eq!(parse_i32(b"2147483648"), None);
    assert_eq!(parse_i32(b"-2147483649"), None);
    assert_eq!(parse_i32(b"-"), None);
    assert_eq!(parse_i32(b"--1"), None);
}

#[test]
fn parsers_agree_with_std() {
    for s in ["0", "1", "+12", "-12", "007", "", "x", "99999999999", "-0", "4294967295"] {
        assert_eq!(parse_u64(s.as_bytes()), s.parse::<u64>().ok(), "{}", s);
        assert_eq!(parse_u32(s.as_bytes()), s.parse::<u32>().ok(), "{}", s);
        assert_eq!(parse_i32(s.as_bytes()), s.parse::<i32>().ok(), "{}", s);
    }
}

use esp_examples::number::{parse_seconds, Seconds};

fn secs(s: &str) -> Option<(u64, u32)> {
    parse_seconds(s.as_bytes()).map(|v: Seconds| (v.secs, v.millis))
}

#[test]
fn seconds_read_as_seconds_and_milliseconds() {
    assert_eq!(secs("0.5"), Some((0, 500)));
    assert_eq!(secs("2"), Some((2, 0)));
    assert_eq!(secs("+1.25"), Some((1, 250)));
    assert_eq!(secs("1.23456"), Some((1, 234)));
    assert_eq!(secs("0.05"), Some((0, 50)));
    assert_eq!(secs("18446744073709551615"), Some((u64::MAX, 0)));
    assert_eq!(secs("18446744073709551615.999"), Some((u64::MAX, 999)));
    assert_eq!(secs("18446744073709551616"), None);
    assert_eq!(secs("18446744073709551616.5"), None);
}

#[test]
fn whole_seconds_agree_with_u64_parse() {
    for s in ["0", "7", "+12", "18446744073709551615", "18446744073709551616", "-1", ""] {
        assert_eq!(secs(s).map(|(s, _)| s), s.parse::<u64>().ok(), "{}", s);
    }
}

#[test]
fn malformed_seconds_are_refused() {
    for s in ["", "+", ".", "1.", ".5", "1.2.3", "-1", "a", "1 ", "1.x", "0.5s"] {
        assert_eq!(secs(s), None, "{}", s);
    }
}
