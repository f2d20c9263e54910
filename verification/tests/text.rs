//! Text primitives on concrete texts.

use groundhog::text::{
    contains, decimal_text, has_text, parse_signed, parse_unsigned, push_decimal, push_text,
    same_text, signed_decimal_text, split_once, string_from_cstring, trim,
};

#[test]
fn numerals_are_written_without_leading_zeros() {
    assert_eq!(decimal_text(0), "0");
    assert_eq!(decimal_text(10), "10");
    assert_eq!(decimal_text(18446744073709551615), "18446744073709551615");
    assert_eq!(signed_decimal_text(-128), "-128");
    assert_eq!(signed_decimal_text(127), "127");
}

#[test]
fn numerals_are_appended() {
    let mut s = "n=".to_string();
    push_decimal(&mut s, 1024);
    push_text(&mut s, ", m");
    assert_eq!(s, "n=1024, m");
}

#[test]
fn unsigned_numerals_are_read_as_std_reads_them() {
    for s in [
        "0", "007", "+7", "255", "256", "-0", "-1", "+", "", " 1", "1 ", "1_0", "65535", "65536",
        "4294967295", "4294967296", "99999999999999999999999999", "١",
    ] {
        assert_eq!(parse_unsigned(s, 0xff).map(|n| n as u8), s.parse::<u8>().ok());
        assert_eq!(parse_unsigned(s, 0xffff).map(|n| n as u16), s.parse::<u16>().ok());
        assert_eq!(parse_unsigned(s, 0xffff_ffff), s.parse::<u32>().ok());
    }
}

#[test]
fn signed_numerals_are_read_as_std_reads_them() {
    for s in [
        "0", "-0", "+0", "-128", "-129", "127", "128", "+-1", "-+1", "-", "--1", "32767", "-32768",
        "-32769", "2147483647", "-2147483648", "-2147483649", "2147483648",
    ] {
        assert_eq!(parse_signed(s, 0x7f).map(|n| n as i8), s.parse::<i8>().ok());
        assert_eq!(parse_signed(s, 0x7fff).map(|n| n as i16), s.parse::<i16>().ok());
        assert_eq!(parse_signed(s, 0x7fff_ffff), s.parse::<i32>().ok());
    }
}

#[test]
fn what_was_written_is_read_back() {
    for n in [0u32, 9, 10, 99, 65535, 4294967295] {
        assert_eq!(parse_unsigned(&decimal_text(n as u64), 0xffff_ffff), Some(n));
    }
    for n in [i32::MIN, -1, 0, 1, i32::MAX] {
        assert_eq!(parse_signed(&signed_decimal_text(n as i64), 0x7fff_ffff), Some(n));
    }
}

#[test]
fn texts_are_split_at_the_first_separator() {
    assert_eq!(split_once("a=b=c", '='), Some(("a".to_string(), "b=c".to_string())));
    assert_eq!(split_once("=x", '='), Some(("".to_string(), "x".to_string())));
    assert_eq!(split_once("x=", '='), Some(("x".to_string(), "".to_string())));
    assert_eq!(split_once("abc", '='), None);
    assert_eq!(split_once("", '='), None);
    assert_eq!(split_once("ä_ö", '_'), Some(("ä".to_string(), "ö".to_string())));
}

#[test]
fn white_space_is_trimmed_as_std_trims_it() {
    for s in [
        "", " ", " a ", "\t a b \n", "\u{a0}x\u{3000}", "\u{85}y\u{2028}", "a", "\u{200b}a\u{feff}",
        "\u{1680}\u{2000}m\u{200a}\u{202f}\u{205f}", "\u{b}\u{c}z\r",
    ] {
        assert_eq!(trim(s), s.trim());
    }
}

#[test]
fn parts_are_found_as_std_finds_them() {
    for (s, part) in [
        ("abcabd", "abd"), ("abc", ""), ("", ""), ("", "a"), ("aaa", "aaaa"), ("xyz", "yz"),
        ("xyz", "zy"), ("äöü", "ö"),
    ] {
        assert_eq!(contains(s, part), s.contains(part));
    }
}

#[test]
fn texts_are_compared_by_their_characters() {
    assert!(same_text("abc", "abc"));
    assert!(!same_text("abc", "abd"));
    assert!(!same_text("abc", "ab"));
    assert!(has_text("a"));
    assert!(!has_text(""));
}

#[test]
fn byte_strings_end_at_the_first_nul() {
    assert_eq!(string_from_cstring(b"abc\0def"), Some("abc".to_string()));
    assert_eq!(string_from_cstring(b"abc"), Some("abc".to_string()));
    assert_eq!(string_from_cstring(b"\0abc"), Some("".to_string()));
    assert_eq!(string_from_cstring(b""), Some("".to_string()));
    assert_eq!(string_from_cstring("grün\0".as_bytes()), Some("grün".to_string()));
}

#[test]
fn byte_strings_must_be_utf8_before_the_first_nul() {
    assert_eq!(string_from_cstring(&[0xff, 0x41]), None);
    assert_eq!(string_from_cstring(&[0xc3]), None);
    assert_eq!(string_from_cstring(&[0x41, 0x00, 0xff]), Some("A".to_string()));
    assert_eq!(string_from_cstring(&[0xed, 0xa0, 0x80]), None);
}
