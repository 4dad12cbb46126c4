use then_backend::{parse_decimal, parse_integer};

#[test]
fn digits_are_read_as_a_number() {
    assert_eq!(Some(0), parse_decimal(b"0"));
    assert_eq!(Some(7), parse_decimal(b"7"));
    assert_eq!(Some(42), parse_decimal(b"42"));
    assert_eq!(Some(42), parse_decimal(b"0042"));
    assert_eq!(Some(1234567890), parse_decimal(b"1234567890"));
    assert_eq!(Some(u64::MAX), parse_decimal(b"18446744073709551615"));
    assert_eq!(Some(u64::MAX), parse_decimal(b"00018446744073709551615"));
}

#[test]
fn what_is_not_all_digits_is_no_number() {
    for text in ["", " ", "+1", "-1", "1 ", " 1", "1a", "a1", "1.0", "1_000", "\u{661}", "1\n", "0x1"] {
        assert_eq!(None, parse_decimal(text.as_bytes()), "{}", text);
    }
    assert_eq!(None, parse_decimal(&[b'1', 0xff]));
    assert_eq!(None, parse_decimal(&[b'/']));
    assert_eq!(None, parse_decimal(&[b':']));
}

#[test]
fn a_number_beyond_64_bits_is_none() {
    assert_eq!(None, parse_decimal(b"18446744073709551616"));
    assert_eq!(None, parse_decimal(b"18446744073709551620"));
    assert_eq!(None, parse_decimal(b"99999999999999999999"));
    assert_eq!(None, parse_decimal(b"184467440737095516150"));
    assert_eq!(None, parse_decimal(b"100000000000000000000000000000000000000000"));
}

#[test]
fn integers_may_have_a_sign() {
    assert_eq!(Some(0), parse_integer(b"0"));
    assert_eq!(Some(0), parse_integer(b"-0"));
    assert_eq!(Some(0), parse_integer(b"+0"));
    assert_eq!(Some(15), parse_integer(b"15"));
    assert_eq!(Some(15), parse_integer(b"+15"));
    assert_eq!(Some(-15), parse_integer(b"-15"));
    assert_eq!(Some(-15), parse_integer(b"-0015"));
    assert_eq!(Some(1_700_000_000), parse_integer(b"1700000000"));
    assert_eq!(Some(i64::MAX), parse_integer(b"9223372036854775807"));
    assert_eq!(Some(i64::MAX), parse_integer(b"+9223372036854775807"));
    assert_eq!(Some(i64::MIN), parse_integer(b"-9223372036854775808"));
    assert_eq!(Some(i64::MIN + 1), parse_integer(b"-9223372036854775807"));
}

#[test]
fn an_integer_beyond_64_bits_is_none() {
    assert_eq!(None, parse_integer(b"9223372036854775808"));
    assert_eq!(None, parse_integer(b"+9223372036854775808"));
    assert_eq!(None, parse_integer(b"-9223372036854775809"));
    assert_eq!(None, parse_integer(b"18446744073709551615"));
    assert_eq!(None, parse_integer(b"-18446744073709551615"));
    assert_eq!(None, parse_integer(b"-18446744073709551616"));
    assert_eq!(None, parse_integer(b"123456789012345678901234567890"));
}

#[test]
fn what_is_no_integer_is_none() {
    for text in ["", "+", "-", "--1", "+-1", "-+1", "1-", "1+", " 1", "1 ", "- 1", "1.5", "abc", "\u{661}"] {
        assert_eq!(None, parse_integer(text.as_bytes()), "{}", text);
    }
}

#[test]
fn integers_are_read_as_the_standard_library_reads_them() {
    for text in [
        "0", "-0", "+0", "1", "-1", "+1", "0012", "-0012", "9223372036854775807",
        "-9223372036854775808", "9223372036854775808", "-9223372036854775809", "", "+", "-", "1x",
        " 1", "99999999999999999999999", "-99999999999999999999999", "1700000000",
    ] {
        assert_eq!(text.parse::<i64>().ok(), parse_integer(text.as_bytes()), "{}", text);
    }
}
