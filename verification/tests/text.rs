use lemonkee::text::{
    byte_len, chars_of, contains, decimal_text, ends_with, fits_utf16, hexadecimal_text, join,
    lower, parse_signed, parse_unsigned, replace, signed_decimal_text, split, split_once,
    split_white_once, split_words, starts_with, strip_prefix, trim, trim_start,
};

#[test]
fn white_space() {
    for text in ["", " ", "\u{a0}a b\u{2003}", "\t x\u{85}\n", "\u{3000}", "\u{200b}x"] {
        assert_eq!(trim(text), text.trim());
        assert_eq!(trim_start(text), text.trim_start());
        let words: Vec<&str> = text.split_whitespace().collect();
        assert_eq!(split_words(text), words);
    }
    assert_eq!(split_white_once("a\u{2028}b c"), Some(("a".to_string(), "b c".to_string())));
    assert_eq!(split_white_once("abc"), None);
}

#[test]
fn pieces() {
    for text in ["", ",", "a,b,,c", "\u{e4},\u{1f34b}"] {
        let expected: Vec<&str> = text.split(',').collect();
        assert_eq!(split(text, ','), expected);
        assert_eq!(join(&split(text, ','), ","), text);
        let halves = text.split_once(',').map(|(a, b)| (a.to_string(), b.to_string()));
        assert_eq!(split_once(text, ','), halves);
    }
    assert_eq!(join(&vec![], "; "), "");
}

#[test]
fn parts() {
    assert!(starts_with("abc", "ab") && starts_with("abc", "") && !starts_with("ab", "abc"));
    assert!(ends_with("abc", "bc") && ends_with("abc", "") && !ends_with("bc", "abc"));
    assert!(contains("xaby", "ab") && contains("", "") && !contains("a", "ab"));
    assert_eq!(strip_prefix("--keyfile=x", "--keyfile="), Some("x".to_string()));
    assert_eq!(strip_prefix("keyfile", "--"), None);
    assert_eq!(replace("{}a{}{", "{}", "K"), "KaK{");
    assert_eq!(replace("aaa", "aa", "b"), "ba");
    assert_eq!(lower("A\u{c4}z"), "a\u{c4}z");
    assert_eq!(chars_of("a\u{1f34b}"), vec!['a', '\u{1f34b}']);
    assert_eq!(byte_len("a\u{1f34b}"), 5);
}

#[test]
fn written_numbers() {
    for n in [0, 9, 10, 12345, u64::MAX] {
        assert_eq!(decimal_text(n), n.to_string());
        assert_eq!(hexadecimal_text(n), format!("{n:016x}"));
    }
    for n in [0, -1, i64::MIN, i64::MAX] {
        assert_eq!(signed_decimal_text(n), n.to_string());
    }
}

#[test]
fn read_numbers() {
    for text in ["0", "007", "+5", "4294967295", "4294967296", "", "+", "-0", "1a", " 1", "99999999999999999999999"] {
        assert_eq!(parse_unsigned(text, u32::MAX as u64), text.parse::<u32>().ok().map(u64::from));
        assert_eq!(parse_signed(text), text.parse::<i64>().ok());
    }
    for text in ["-5", "-9223372036854775808", "-9223372036854775809", "9223372036854775807", "9223372036854775808"] {
        assert_eq!(parse_signed(text), text.parse::<i64>().ok());
    }
}

#[test]
fn wide_characters() {
    assert!(fits_utf16("abc", 3) && !fits_utf16("abc", 2));
    assert!(fits_utf16("\u{1f34b}", 2) && !fits_utf16("\u{1f34b}", 1));
}
