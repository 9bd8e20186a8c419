//! Texts and numbers.

use remotefs::number::{parse_i64, parse_u16, parse_u32, parse_u64, to_decimal, to_hex16};
use remotefs::path::{has_extension, join, push_path};
use remotefs::text::{
    contains_text, split, split_lines, split_once, split_words, starts_with, strip_prefix,
    trim_end, trim_end_text,
};

#[test]
fn numbers_are_read() {
    assert_eq!(parse_u64("18446744073709551615"), Some(u64::MAX));
    assert_eq!(parse_u64("18446744073709551616"), None);
    assert_eq!(parse_u64("+7"), Some(7));
    assert_eq!(parse_u64("-7"), None);
    assert_eq!(parse_u64("+"), None);
    assert_eq!(parse_u64(""), None);
    assert_eq!(parse_u64("7 "), None);
    assert_eq!(parse_u32("4294967296"), None);
    assert_eq!(parse_u16("65535"), Some(65535));
    assert_eq!(parse_u16("65536"), None);
    assert_eq!(parse_i64("-9223372036854775808"), Some(i64::MIN));
    assert_eq!(parse_i64("9223372036854775808"), None);
    assert_eq!(parse_i64("-"), None);
}

#[test]
fn numbers_agree_with_std() {
    for s in ["", "0", "00012", "+0", "-0", "9", "1_000", "99999999999999999999", "a1", "٣"] {
        assert_eq!(parse_u64(s), s.parse::<u64>().ok());
        assert_eq!(parse_u32(s), s.parse::<u32>().ok());
        assert_eq!(parse_u16(s), s.parse::<u16>().ok());
        assert_eq!(parse_i64(s), s.parse::<i64>().ok());
    }
}

#[test]
fn numbers_are_written() {
    assert_eq!(to_decimal(0), "0");
    assert_eq!(to_decimal(u64::MAX), "18446744073709551615");
    assert_eq!(to_hex16(0xabc), "0000000000000abc");
}

#[test]
fn prefixes_and_pieces() {
    assert!(starts_with("abc", "ab"));
    assert_eq!(strip_prefix("abc", "ab"), Some("c".to_string()));
    assert_eq!(strip_prefix("abc", "b"), None);
    assert_eq!(split_once("a:b:c", ':'), Some(("a".to_string(), "b:c".to_string())));
    assert_eq!(split("a&&b", '&'), vec!["a", "", "b"]);
    assert_eq!(split("", '&'), vec![""]);
    assert!(contains_text("abcd", "bc"));
    assert!(contains_text("abcd", ""));
    assert!(!contains_text("abcd", "cb"));
    assert_eq!(trim_end("a//", '/'), "a");
    assert_eq!(trim_end_text("xabab", "ab"), "x");
}

#[test]
fn lines_and_words_agree_with_std() {
    for s in ["", "\n", "a", "a\n", "a\r\nb\r", "a\n\nb", "\r\n", " a  b\u{a0}c\t\n d\u{3000}", "\u{85}x\u{2029}y"] {
        let l: Vec<String> = s.lines().map(str::to_string).collect();
        assert_eq!(split_lines(s), l);
        let w: Vec<String> = s.split_whitespace().map(str::to_string).collect();
        assert_eq!(split_words(s), w);
    }
}

#[test]
fn local_paths() {
    assert_eq!(join("/c", "f"), "/c/f");
    assert_eq!(join("/c/", "f"), "/c/f");
    assert_eq!(join("", "f"), "f");
    assert_eq!(push_path("/c", "/f"), "/f");
    assert!(has_extension("a.b"));
    assert!(!has_extension(".a"));
    assert!(!has_extension("a"));
    assert!(has_extension("a."));
    assert!(!has_extension(".."));
}
