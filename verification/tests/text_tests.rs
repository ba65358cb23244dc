use http_origin::text::{
    bytes_equal, header_is_text, parse_u64, split_on, starts_with, to_decimal, to_lower_hex,
};

#[test]
fn printable_bytes_and_tabs_are_text() {
    assert!(header_is_text(b"bytes=0-1, \"abc\"\t~"));
    assert!(header_is_text(b""));
}

#[test]
fn control_and_high_bytes_are_not_text() {
    assert!(!header_is_text(b"abc\x7f"));
    assert!(!header_is_text(b"abc\x80"));
    assert!(!header_is_text(b"a\nb"));
    assert!(!header_is_text(&[0x1f]));
}

#[test]
fn equal_bytes_are_told_from_unequal() {
    assert!(bytes_equal(b"abc", b"abc"));
    assert!(!bytes_equal(b"abc", b"abd"));
    assert!(!bytes_equal(b"abc", b"ab"));
    assert!(bytes_equal(b"", b""));
}

#[test]
fn prefix_is_found_only_at_the_start() {
    assert!(starts_with(b"bytes=0-1", b"bytes="));
    assert!(!starts_with(b" bytes=0-1", b"bytes="));
    assert!(!starts_with(b"byte", b"bytes="));
    assert!(starts_with(b"abc", b""));
}

#[test]
fn split_on_one_byte_keeps_empty_pieces() {
    let pieces = split_on(b"a,b,,c", b",");
    let expected: Vec<&[u8]> = vec![b"a", b"b", b"", b"c"];
    assert_eq!(pieces, expected);
    let trailing = split_on(b"a,", b",");
    let expected: Vec<&[u8]> = vec![b"a", b""];
    assert_eq!(trailing, expected);
}

#[test]
fn split_of_text_without_separator_is_the_text() {
    let pieces = split_on(b"abc", b",");
    let expected: Vec<&[u8]> = vec![b"abc"];
    assert_eq!(pieces, expected);
    let empty = split_on(b"", b",");
    let expected: Vec<&[u8]> = vec![b""];
    assert_eq!(empty, expected);
}

#[test]
fn split_on_two_bytes_goes_left_to_right() {
    let pieces = split_on(b"a, , b,c", b", ");
    let expected: Vec<&[u8]> = vec![b"a", b"", b"b,c"];
    assert_eq!(pieces, expected);
    let short = split_on(b"*", b", ");
    let expected: Vec<&[u8]> = vec![b"*"];
    assert_eq!(short, expected);
}

#[test]
fn split_agrees_with_the_standard_library() {
    let cases: Vec<&str> = vec!["", ",", ", ", "a, b", ", , ", "a,, b, ", "x, y, z", ",,  ,"];
    for text in cases {
        let expected: Vec<&[u8]> = text.split(", ").map(|piece| piece.as_bytes()).collect();
        assert_eq!(split_on(text.as_bytes(), b", "), expected);
        let expected: Vec<&[u8]> = text.split(',').map(|piece| piece.as_bytes()).collect();
        assert_eq!(split_on(text.as_bytes(), b","), expected);
    }
}

#[test]
fn numbers_are_read_in_decimal() {
    assert_eq!(parse_u64(b"0"), Some(0));
    assert_eq!(parse_u64(b"007"), Some(7));
    assert_eq!(parse_u64(b"1234567890"), Some(1234567890));
    assert_eq!(parse_u64(b"+5"), Some(5));
    assert_eq!(parse_u64(b"18446744073709551615"), Some(u64::MAX));
}

#[test]
fn what_is_no_number_reads_as_none() {
    assert_eq!(parse_u64(b""), None);
    assert_eq!(parse_u64(b"+"), None);
    assert_eq!(parse_u64(b"-1"), None);
    assert_eq!(parse_u64(b"++1"), None);
    assert_eq!(parse_u64(b" 5"), None);
    assert_eq!(parse_u64(b"5 "), None);
    assert_eq!(parse_u64(b"12a"), None);
    assert_eq!(parse_u64(b"18446744073709551616"), None);
    assert_eq!(parse_u64(b"99999999999999999999999"), None);
    assert_eq!(parse_u64(b"99999999999999999999999x"), None);
}

#[test]
fn number_reading_agrees_with_the_standard_library() {
    let cases: Vec<&str> = vec![
        "", "+", "-", "0", "+0", "-0", "42", "+42", "4 2", "0x10", "18446744073709551615",
        "18446744073709551616", "000000000000000000000000001",
    ];
    for text in cases {
        assert_eq!(parse_u64(text.as_bytes()), text.parse::<u64>().ok());
    }
}

#[test]
fn numbers_are_written_in_decimal() {
    assert_eq!(to_decimal(0), b"0".to_vec());
    assert_eq!(to_decimal(9), b"9".to_vec());
    assert_eq!(to_decimal(10), b"10".to_vec());
    assert_eq!(to_decimal(12345), b"12345".to_vec());
    assert_eq!(to_decimal(u64::MAX), b"18446744073709551615".to_vec());
}

#[test]
fn numbers_are_written_in_lower_case_hexadecimal() {
    assert_eq!(to_lower_hex(0), b"0".to_vec());
    assert_eq!(to_lower_hex(10), b"a".to_vec());
    assert_eq!(to_lower_hex(255), b"ff".to_vec());
    assert_eq!(to_lower_hex(0xdead_beef), b"deadbeef".to_vec());
    assert_eq!(to_lower_hex(u64::MAX), b"ffffffffffffffff".to_vec());
}

#[test]
fn written_numbers_read_back() {
    let values: Vec<u64> = vec![0, 1, 9, 10, 99, 100, 4096, u64::MAX - 1, u64::MAX];
    for value in values {
        assert_eq!(parse_u64(&to_decimal(value)), Some(value));
        assert_eq!(to_lower_hex(value), format!("{:x}", value).into_bytes());
    }
}
