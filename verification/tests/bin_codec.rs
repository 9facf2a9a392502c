use sysz::math::bin;
use sysz::math::bin::{clean, decode, encode, is_valid, is_valid_strict};
use sysz::Error;

fn reason(r: Result<String, Error>) -> String {
    match r {
        Err(Error::InvalidSyntax(text)) => text,
        other => panic!("expected InvalidSyntax, got {:?}", other),
    }
}

#[test]
fn bin_encode_eight_digits_per_byte() {
    assert_eq!(encode("A"), "01000001");
    assert_eq!(encode("AB"), "01000001 01000010");
    assert_eq!(encode(""), "");
    assert_eq!(encode("\u{0}\u{7f}"), "00000000 01111111");
    assert_eq!(encode("é"), "11000011 10101001");
}

#[test]
fn bin_encoded_length_is_nine_per_byte_less_one() {
    for text in ["a", "ab", "héllo", "日本語"] {
        assert_eq!(encode(text).len(), 9 * text.len() - 1);
    }
}

#[test]
fn bin_decode_most_significant_digit_first() {
    assert_eq!(decode("01000001").unwrap(), "A");
    assert_eq!(decode("0100000101000010").unwrap(), "AB");
    assert_eq!(decode("01000001 01000010").unwrap(), "AB");
    assert_eq!(decode("11000011 10101001").unwrap(), "é");
    assert_eq!(decode("00000001").unwrap(), "\u{1}");
    assert_eq!(decode("01000000").unwrap(), "@");
}

#[test]
fn bin_decode_skips_whitespace_anywhere() {
    assert_eq!(decode(" 0100\t0001\n").unwrap(), "A");
    assert_eq!(decode("0 1 0 0 0 0 0 1").unwrap(), "A");
    assert_eq!(decode("0100\u{3000}0001").unwrap(), "A");
}

#[test]
fn bin_decode_of_nothing_is_the_empty_string() {
    assert_eq!(decode("").unwrap(), "");
    assert_eq!(decode(" \n").unwrap(), "");
}

#[test]
fn bin_decode_rejects_digit_count_not_multiple_of_eight() {
    assert_eq!(reason(decode("0100000")), "Binary string must have length multiple of 8");
    assert_eq!(reason(decode("010000010")), "Binary string must have length multiple of 8");
}

#[test]
fn bin_decode_rejects_foreign_characters_first() {
    assert_eq!(reason(decode("0100000x")), "Non-binary character detected");
    assert_eq!(reason(decode("01000002")), "Non-binary character detected");
    assert_eq!(reason(decode("2")), "Non-binary character detected");
}

#[test]
fn bin_decode_rejects_bytes_that_are_no_utf8() {
    let expected = format!("Invalid UTF-8: {}", String::from_utf8(vec![0xFF]).unwrap_err());
    assert_eq!(reason(decode("11111111")), expected);
}

#[test]
fn bin_round_trip() {
    for text in ["", "A", "AB", "Hello, World!", "héllo wörld", "日本語", "\n\t\u{0}"] {
        assert_eq!(decode(&encode(text)).unwrap(), text);
    }
}

#[test]
fn bin_clean_keeps_digits_only() {
    assert_eq!(clean("0b1010 1111"), "010101111");
    assert_eq!(clean("0123456789"), "01");
    assert_eq!(clean("xyz"), "");
    assert_eq!(clean(""), "");
}

#[test]
fn bin_is_valid_is_the_loose_check() {
    assert!(is_valid("01"));
    assert!(is_valid("0 1\t"));
    assert!(is_valid(" "));
    assert!(!is_valid(""));
    assert!(!is_valid("012"));
    assert!(!is_valid("0b01"));
}

#[test]
fn bin_is_valid_strict_counts_digits() {
    assert!(is_valid_strict("01000001"));
    assert!(is_valid_strict("0100 0001"));
    assert!(is_valid_strict("01000001 01000010"));
    assert!(!is_valid_strict("0100000"));
    assert!(!is_valid_strict("010000010"));
    assert!(!is_valid_strict(""));
    assert!(!is_valid_strict("  "));
    assert!(!is_valid_strict("0100000x"));
    assert!(!is_valid_strict("01000001x"));
}

#[test]
fn bin_format_spaces_the_bytes() {
    assert_eq!(bin::format("0100000101000010").unwrap(), "01000001 01000010");
    assert_eq!(bin::format("0100 0001").unwrap(), "01000001");
    assert_eq!(bin::format("0 1 0 0 0 0 0 1 0 1 0 0 0 0 1 0").unwrap(), "01000001 01000010");
}

#[test]
fn bin_format_rejects_empty_and_misaligned() {
    assert_eq!(reason(bin::format("")), "Empty binary string");
    assert_eq!(reason(bin::format("abc")), "Empty binary string");
    assert_eq!(reason(bin::format("0100000")), "Binary string length must be multiple of 8");
}

#[test]
fn bin_format_drops_what_the_loose_check_rejects() {
    assert_eq!(bin::format("0100x0001").unwrap(), "01000001");
    assert!(!is_valid("0100x0001"));
}

#[test]
fn bin_rejected_by_is_valid_is_not_decoded() {
    for text in ["012", "0b01000001", "x"] {
        assert!(!is_valid(text));
        assert!(decode(text).is_err());
    }
}
