use hackem::format::{hex_digit, push_decimal, push_hex, push_hex4, push_signed};
use hackem::text::{
    contains_bytes, digit_of, find_line_end, has_prefix, hex_prefixed, is_space_byte, parse_literal,
    parse_number, skip_spaces_from, skip_word_from, trim,
};

#[test]
fn numbers_are_read_in_every_radix() {
    assert_eq!(parse_number(b"0", 10), Some(0));
    assert_eq!(parse_number(b"65535", 10), Some(65535));
    assert_eq!(parse_number(b"65536", 10), None);
    assert_eq!(parse_number(b"000000000000000000000000000065535", 10), Some(65535));
    assert_eq!(parse_number(b"99999999999999999999999999", 10), None);
    assert_eq!(parse_number(b"ffff", 16), Some(0xffff));
    assert_eq!(parse_number(b"FfFf", 16), Some(0xffff));
    assert_eq!(parse_number(b"10000", 16), None);
    assert_eq!(parse_number(b"1111111111111111", 2), Some(0xffff));
    assert_eq!(parse_number(b"10000000000000000", 2), None);
    assert_eq!(parse_number(b"12", 2), None);
    assert_eq!(parse_number(b"zz", 36), Some(35 * 36 + 35));
    assert_eq!(parse_number(b"", 10), None);
    assert_eq!(parse_number(b"+1", 10), None);
    assert_eq!(parse_number(b"1 ", 10), None);
    assert_eq!(parse_number(b"g", 16), None);
    assert_eq!(parse_number(b"99999g", 16), None);
}

#[test]
fn literals_may_have_a_plus_sign() {
    assert_eq!(parse_literal(b"+12", 10), Some(12));
    assert_eq!(parse_literal(b"12", 10), Some(12));
    assert_eq!(parse_literal(b"+", 10), None);
    assert_eq!(parse_literal(b"++1", 10), None);
    assert_eq!(parse_literal(b"-1", 10), None);
    assert_eq!(parse_literal(b"", 10), None);
}

#[test]
fn digits_have_values() {
    assert_eq!(digit_of(b'0'), 0);
    assert_eq!(digit_of(b'9'), 9);
    assert_eq!(digit_of(b'a'), 10);
    assert_eq!(digit_of(b'F'), 15);
    assert_eq!(digit_of(b'z'), 35);
    assert_eq!(digit_of(b'Z'), 35);
    assert_eq!(digit_of(b'/'), 36);
    assert_eq!(digit_of(b':'), 36);
    assert_eq!(digit_of(b'@'), 36);
    assert_eq!(digit_of(b'['), 36);
    assert_eq!(digit_of(b'`'), 36);
    assert_eq!(digit_of(b'{'), 36);
    assert_eq!(digit_of(0xc3), 36);
}

#[test]
fn lines_and_words_are_found() {
    let text = b"ab\ncd\n\nef";
    assert_eq!(find_line_end(text, 0), 2);
    assert_eq!(find_line_end(text, 2), 2);
    assert_eq!(find_line_end(text, 3), 5);
    assert_eq!(find_line_end(text, 6), 6);
    assert_eq!(find_line_end(text, 7), 9);
    assert_eq!(find_line_end(text, 9), 9);
    let line = b"  one \t two";
    assert_eq!(skip_spaces_from(line, 0), 2);
    assert_eq!(skip_word_from(line, 2), 5);
    assert_eq!(skip_spaces_from(line, 5), 8);
    assert_eq!(skip_word_from(line, 8), 11);
    assert_eq!(skip_spaces_from(line, 11), 11);
    assert_eq!(skip_word_from(line, 0), 0);
}

#[test]
fn trim_takes_white_space_off_both_ends() {
    assert_eq!(trim(b"  ab c \r"), b"ab c");
    assert_eq!(trim(b"abc"), b"abc");
    assert_eq!(trim(b" \t\x0b\x0c\r\n "), b"");
    assert_eq!(trim(b""), b"");
    assert_eq!(trim(b"x "), b"x");
    assert_eq!(trim(b"\xa0x"), b"\xa0x");
    for b in 0..=255u8 {
        assert_eq!(is_space_byte(b), b == b' ' || (9..=13).contains(&b));
    }
}

#[test]
fn prefixes_and_parts_are_found() {
    assert!(has_prefix(b"hackem v1.0", b"hackem"));
    assert!(has_prefix(b"hackem", b"hackem"));
    assert!(has_prefix(b"x", b""));
    assert!(!has_prefix(b"hacke", b"hackem"));
    assert!(!has_prefix(b"Hackem", b"hackem"));
    assert!(hex_prefixed(b"0x1"));
    assert!(hex_prefixed(b"0X"));
    assert!(!hex_prefixed(b"0"));
    assert!(!hex_prefixed(b"1x2"));
    assert!(contains_bytes(b"remain", b"main"));
    assert!(contains_bytes(b"remain", b"re"));
    assert!(contains_bytes(b"remain", b""));
    assert!(contains_bytes(b"", b""));
    assert!(contains_bytes(b"aab", b"ab"));
    assert!(!contains_bytes(b"remain", b"mainz"));
    assert!(!contains_bytes(b"", b"a"));
    assert!(!contains_bytes(b"abc", b"ac"));
}

#[test]
fn numbers_are_written() {
    let mut s = String::from(">");
    push_hex4(&mut s, 0x0a1f, false);
    push_hex4(&mut s, 0x0a1f, true);
    assert_eq!(s, ">0a1f0A1F");
    let mut d = String::new();
    push_decimal(&mut d, 0);
    d.push(' ');
    push_decimal(&mut d, 65535);
    d.push(' ');
    push_decimal(&mut d, u64::MAX);
    d.push(' ');
    push_signed(&mut d, -1);
    d.push(' ');
    push_signed(&mut d, i64::MAX);
    assert_eq!(d, "0 65535 18446744073709551615 -1 9223372036854775807");
    let mut h = String::new();
    push_hex(&mut h, 0);
    push_hex(&mut h, 0xf);
    push_hex(&mut h, 0x10);
    push_hex(&mut h, 0xffff);
    assert_eq!(h, "0f10ffff");
    for v in 0..16u16 {
        assert_eq!(hex_digit(v, false), format!("{:x}", v));
        assert_eq!(hex_digit(v, true), format!("{:X}", v));
    }
}
