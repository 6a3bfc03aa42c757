use trustfall_rustdoc::decimal::{parse_signed, parse_unsigned, push_decimal};

#[test]
fn unsigned_numerals() {
    assert_eq!(parse_unsigned(b"0"), Some(0));
    assert_eq!(parse_unsigned(b"10"), Some(10));
    assert_eq!(parse_unsigned(b"+10"), Some(10));
    assert_eq!(parse_unsigned(b"0010"), Some(10));
    assert_eq!(parse_unsigned(b"4294967295"), Some(u32::MAX));
    assert_eq!(parse_unsigned(b"4294967296"), None);
    assert_eq!(parse_unsigned(b"99999999999999999999999999"), None);
    assert_eq!(parse_unsigned(b""), None);
    assert_eq!(parse_unsigned(b"+"), None);
    assert_eq!(parse_unsigned(b"-1"), None);
    assert_eq!(parse_unsigned(b"1a"), None);
    assert_eq!(parse_unsigned(b"++1"), None);
    assert_eq!(parse_unsigned(b"1 "), None);
}

#[test]
fn unsigned_numerals_are_read_as_the_standard_library_reads_them() {
    for text in ["0", "7", "+7", "007", "4294967295", "4294967296", "", "+", "-0", "1_0", "12a"] {
        assert_eq!(parse_unsigned(text.as_bytes()), text.parse::<u32>().ok(), "{text:?}");
    }
}

#[test]
fn signed_numerals() {
    assert_eq!(parse_signed(b"-12"), Some(-12));
    assert_eq!(parse_signed(b"+12"), Some(12));
    assert_eq!(parse_signed(b"-0"), Some(0));
    assert_eq!(parse_signed(b"9223372036854775807"), Some(i64::MAX));
    assert_eq!(parse_signed(b"9223372036854775808"), None);
    assert_eq!(parse_signed(b"-9223372036854775808"), Some(i64::MIN));
    assert_eq!(parse_signed(b"-9223372036854775809"), None);
    assert_eq!(parse_signed(b"-"), None);
    assert_eq!(parse_signed(b"--1"), None);
    assert_eq!(parse_signed(b"1-"), None);
}

#[test]
fn numbers_are_written_in_decimal() {
    for (n, text) in [(0u32, "0"), (7, "7"), (10, "10"), (37, "37"), (1907, "1907"), (u32::MAX, "4294967295")] {
        let mut out = String::from("v");
        push_decimal(&mut out, n);
        assert_eq!(out, format!("v{text}"));
        assert_eq!(parse_unsigned(text.as_bytes()), Some(n));
    }
}
