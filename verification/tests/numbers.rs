use serve_core::bytes::{copy, equal, equal_ignoring_case, find, starts_with};
use serve_core::number::{
    parse_i32, parse_plus_unsigned, parse_u16, parse_unsigned, push_decimal, push_signed_decimal,
};

#[test]
fn parse_i32_reads_what_the_standard_library_reads() {
    let inputs = [
        "0", "42", "-42", "+7", "007", "-0", "+0", "", "-", "+", "--1", "+-1", "-+1", "4x", "x4",
        " 4", "4 ", "2147483647", "2147483648", "-2147483648", "-2147483649",
        "99999999999999999999999999", "-99999999999999999999999999", "1.5", "1e3", "0x10",
        "\u{661}",
    ];
    for input in inputs {
        assert_eq!(parse_i32(input.as_bytes()), input.parse::<i32>().ok(), "{:?}", input);
    }
}

#[test]
fn parse_i32_gives_exact_values() {
    assert_eq!(parse_i32(b"42"), Some(42));
    assert_eq!(parse_i32(b"-2147483648"), Some(i32::MIN));
    assert_eq!(parse_i32(b"2147483647"), Some(i32::MAX));
    assert_eq!(parse_i32(b"abc"), None);
}

#[test]
fn parse_u16_reads_what_the_standard_library_reads() {
    let inputs = ["0", "80", "+80", "-80", "65535", "65536", "", "+", "3000", "30 00", "99999999"];
    for input in inputs {
        assert_eq!(parse_u16(input.as_bytes()), input.parse::<u16>().ok(), "{:?}", input);
    }
}

#[test]
fn parse_unsigned_respects_its_bound() {
    assert_eq!(parse_unsigned(b"10", 10), Some(10));
    assert_eq!(parse_unsigned(b"11", 10), None);
    assert_eq!(parse_unsigned(b"18446744073709551615", u64::MAX), Some(u64::MAX));
    assert_eq!(parse_unsigned(b"18446744073709551616", u64::MAX), None);
    assert_eq!(parse_unsigned(b"+1", 10), None);
    assert_eq!(parse_plus_unsigned(b"+1", 10), Some(1));
    assert_eq!(parse_plus_unsigned(b"++1", 10), None);
    assert_eq!(parse_unsigned(b"0", 0), Some(0));
    assert_eq!(parse_unsigned(b"000", 0), Some(0));
}

#[test]
fn decimals_are_written_as_the_standard_library_writes_them() {
    for n in [0u64, 1, 9, 10, 11, 99, 100, 101, 1234, 65535, 4294967296, u64::MAX] {
        let mut out = b"n=".to_vec();
        push_decimal(&mut out, n);
        assert_eq!(out, format!("n={}", n).into_bytes());
    }
    for n in [0i32, 1, -1, 30, -30, 10, -10, i32::MAX, i32::MIN] {
        let mut out = Vec::new();
        push_signed_decimal(&mut out, n);
        assert_eq!(out, format!("{}", n).into_bytes());
    }
}

#[test]
fn a_written_number_reads_back() {
    for n in [0i32, 5, -5, 1000, -1000, i32::MAX, i32::MIN] {
        let mut out = Vec::new();
        push_signed_decimal(&mut out, n);
        assert_eq!(parse_i32(&out), Some(n));
    }
}

#[test]
fn byte_strings_compare_and_search() {
    assert!(equal(b"abc", b"abc"));
    assert!(!equal(b"abc", b"abd"));
    assert!(!equal(b"abc", b"ab"));
    assert!(equal(b"", b""));
    assert!(equal_ignoring_case(b"Content-Length", b"content-length"));
    assert!(!equal_ignoring_case(b"[", b"{"));
    assert!(!equal_ignoring_case(b"@", b"`"));
    assert!(starts_with(b"/users/1", b"/users/"));
    assert!(!starts_with(b"/users", b"/users/"));
    assert!(starts_with(b"abc", b""));
    assert_eq!(find(b"a\r\nb\r\n", b"\r\n"), Some(1));
    assert_eq!(find(b"\r\n", b"\r\n"), Some(0));
    assert_eq!(find(b"a\rb\n", b"\r\n"), None);
    assert_eq!(find(b"", b"\r\n"), None);
    assert_eq!(find(b"abc", b""), Some(0));
    assert_eq!(find(b"", b""), Some(0));
    assert_eq!(find(b"aab", b"ab"), Some(1));
    assert_eq!(copy(b"xyz"), b"xyz".to_vec());
}
