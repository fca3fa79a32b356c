use metis::bytes::{find, push_u16, push_u16_be, push_u32, push_u64, read_u16, read_u32, read_u64};
use metis::strings::{
    join, parse_integer, replace, sort_unique, starts_with, tail, text_before, trim,
};
use metis::text::{decimal, decimal_signed, encode_utf16, eq_ignore_ascii_case, hex};
use metis::Error;

#[test]
fn text_is_cut_and_joined() {
    assert_eq!(trim(" \t\u{a0}a b\r\n"), "a b");
    assert_eq!(replace("a''b''", "''", "'"), "a'b'");
    assert_eq!(join(&vec!["a".into(), "b".into()], "; "), "a; b");
    assert!(starts_with("ABC", "AB"));
    assert_eq!(tail("a\u{e9}b", 3), Some("b"));
    assert_eq!(tail("a\u{e9}b", 2), None);
    assert_eq!(tail("ab", 3), None);
}

#[test]
fn integers_are_read_as_written() {
    assert_eq!(parse_integer("+42"), Some(42));
    assert_eq!(parse_integer("-9223372036854775808"), Some(i64::MIN));
    assert_eq!(parse_integer("9223372036854775808"), None);
    assert_eq!(parse_integer(""), None);
    assert_eq!(parse_integer("4 2"), None);
}

#[test]
fn lists_are_sorted_without_repeats() {
    assert_eq!(
        sort_unique(&vec!["b".into(), "a".into(), "b".into()]),
        ["a", "b"]
    );
    assert!(text_before("a", "aa"));
    assert!(!text_before("b", "aa"));
}

#[test]
fn numbers_and_bytes_are_written_out() {
    assert_eq!(decimal(u128::MAX), u128::MAX.to_string());
    assert_eq!(decimal_signed(i64::MIN), i64::MIN.to_string());
    assert_eq!(hex(&[0, 0x0f, 0xff]), "000fff");
    assert_eq!(encode_utf16("a\u{1f600}"), [0x61, 0xd83d, 0xde00]);
    assert!(eq_ignore_ascii_case("Sa", "sA"));
    assert!(!eq_ignore_ascii_case("\u{e9}", "\u{c9}"));
}

#[test]
fn little_endian_numbers_come_back() {
    let mut out = Vec::new();
    push_u16(&mut out, 0x1234);
    push_u32(&mut out, 0xdead_beef);
    push_u64(&mut out, 0x0102_0304_0506_0708);
    push_u16_be(&mut out, 0x1234);
    assert_eq!(read_u16(&out, 0), 0x1234);
    assert_eq!(read_u32(&out, 2), 0xdead_beef);
    assert_eq!(read_u64(&out, 6), 0x0102_0304_0506_0708);
    assert_eq!(out[14..], [0x12, 0x34]);
    assert_eq!(find(&out, &[0x12, 0x34]), Some(14));
    assert_eq!(find(&out, &[9, 9]), None);
}

#[test]
fn errors_have_kinds_and_texts() {
    let cases = [
        (Error::Config("x".into()), "configuration", "configuration error: x"),
        (Error::Protocol("x".into()), "protocol", "TDS protocol error: x"),
        (Error::Tls("x".into()), "tls", "TLS error: x"),
        (Error::Io("x".into()), "io", "I/O error: x"),
    ];
    for (error, kind, text) in cases {
        assert_eq!(error.kind(), kind);
        assert_eq!(error.to_string(), text);
    }
}
