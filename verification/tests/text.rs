use size_converter::decimal::{decimal_text, digit, parse_decimal, push_decimal};
use size_converter::text::{chars, is_whitespace, trim};

fn trimmed(text: &str) -> String {
    let cs: Vec<char> = text.chars().collect();
    trim(&cs).iter().collect()
}

fn parsed(text: &str) -> Option<u64> {
    let cs: Vec<char> = text.chars().collect();
    parse_decimal(&cs)
}

#[test]
fn whitespace_is_the_unicode_white_space_set() {
    let mut code: u32 = 0;
    while code <= 0x10FFFF {
        if let Some(c) = char::from_u32(code) {
            assert_eq!(is_whitespace(c), c.is_whitespace(), "U+{:04X}", code);
        }
        code += 1;
    }
}

#[test]
fn whitespace_named_code_points() {
    for c in ['\t', '\n', '\u{b}', '\u{c}', '\r', ' ', '\u{85}', '\u{a0}', '\u{1680}',
        '\u{2000}', '\u{200a}', '\u{2028}', '\u{2029}', '\u{202f}', '\u{205f}', '\u{3000}']
    {
        assert!(is_whitespace(c));
    }
    for c in ['\u{8}', '\u{e}', '0', 'k', '\u{200b}', '\u{180e}', '\u{feff}', '\u{2060}'] {
        assert!(!is_whitespace(c));
    }
}

#[test]
fn chars_lists_every_character_in_order() {
    assert_eq!(chars(""), Vec::<char>::new());
    assert_eq!(chars("10kb"), vec!['1', '0', 'k', 'b']);
    assert_eq!(chars("5 \u{e9}\u{20ac}"), vec!['5', ' ', '\u{e9}', '\u{20ac}']);
}

#[test]
fn trim_removes_padding_at_both_ends() {
    assert_eq!(trimmed("  10 "), "10");
    assert_eq!(trimmed("\t\n10\r\n"), "10");
    assert_eq!(trimmed("\u{3000}10\u{a0}"), "10");
    assert_eq!(trimmed("10"), "10");
}

#[test]
fn trim_keeps_inner_white_space() {
    assert_eq!(trimmed(" 1 0 "), "1 0");
}

#[test]
fn trim_of_blank_text_is_empty() {
    assert_eq!(trimmed(""), "");
    assert_eq!(trimmed(" "), "");
    assert_eq!(trimmed(" \t \n "), "");
}

#[test]
fn trim_agrees_with_the_standard_trim() {
    for text in ["", " ", "a", " a", "a ", " a b ", "\u{2003}x\u{2003}", "\u{200b} x", "  12  3 "]
    {
        assert_eq!(trimmed(text), text.trim());
    }
}

#[test]
fn digit_reads_the_ten_digits_only() {
    assert_eq!(digit('0'), Some(0));
    assert_eq!(digit('7'), Some(7));
    assert_eq!(digit('9'), Some(9));
    assert_eq!(digit('/'), None);
    assert_eq!(digit(':'), None);
    assert_eq!(digit('a'), None);
    assert_eq!(digit('\u{661}'), None);
}

#[test]
fn parse_decimal_reads_numerals() {
    assert_eq!(parsed("0"), Some(0));
    assert_eq!(parsed("7"), Some(7));
    assert_eq!(parsed("10"), Some(10));
    assert_eq!(parsed("1234567890"), Some(1234567890));
}

#[test]
fn parse_decimal_accepts_leading_zeros() {
    assert_eq!(parsed("007"), Some(7));
    assert_eq!(parsed("0000000000000000000000000000042"), Some(42));
}

#[test]
fn parse_decimal_reads_up_to_the_largest_value() {
    assert_eq!(parsed("18446744073709551615"), Some(u64::MAX));
    assert_eq!(parsed("18446744073709551614"), Some(u64::MAX - 1));
}

#[test]
fn parse_decimal_rejects_values_that_do_not_fit() {
    assert_eq!(parsed("18446744073709551616"), None);
    assert_eq!(parsed("18446744073709551620"), None);
    assert_eq!(parsed("99999999999999999999"), None);
    assert_eq!(parsed("100000000000000000000000"), None);
}

#[test]
fn parse_decimal_rejects_the_empty_text() {
    assert_eq!(parsed(""), None);
}

#[test]
fn parse_decimal_rejects_signs_and_separators() {
    assert_eq!(parsed("+5"), None);
    assert_eq!(parsed("-5"), None);
    assert_eq!(parsed("+"), None);
    assert_eq!(parsed("1.5"), None);
    assert_eq!(parsed("1,000"), None);
    assert_eq!(parsed("1_000"), None);
}

#[test]
fn parse_decimal_rejects_other_characters() {
    assert_eq!(parsed("12a"), None);
    assert_eq!(parsed("a12"), None);
    assert_eq!(parsed("1 2"), None);
    assert_eq!(parsed(" 12"), None);
    assert_eq!(parsed("0x10"), None);
    assert_eq!(parsed("\u{661}\u{662}"), None);
}

#[test]
fn parse_decimal_rejects_a_letter_after_an_overflow() {
    assert_eq!(parsed("99999999999999999999x"), None);
}

#[test]
fn decimal_text_writes_numerals() {
    assert_eq!(decimal_text(0), "0");
    assert_eq!(decimal_text(9), "9");
    assert_eq!(decimal_text(10), "10");
    assert_eq!(decimal_text(10000), "10000");
    assert_eq!(decimal_text(5_000_000_000), "5000000000");
    assert_eq!(decimal_text(u64::MAX), "18446744073709551615");
}

#[test]
fn decimal_text_agrees_with_the_standard_rendering() {
    let mut n: u64 = 1;
    for _ in 0..64 {
        assert_eq!(decimal_text(n), n.to_string());
        assert_eq!(decimal_text(n - 1), (n - 1).to_string());
        n = n.wrapping_mul(2);
    }
}

#[test]
fn push_decimal_appends_to_what_is_there() {
    let mut text = String::from("n = ");
    push_decimal(&mut text, 1500);
    assert_eq!(text, "n = 1500");
    push_decimal(&mut text, 0);
    assert_eq!(text, "n = 15000");
}

#[test]
fn decimal_text_writes_back_canonical_numerals() {
    for text in ["0", "1", "9", "10", "42", "100", "1500", "18446744073709551615"] {
        assert_eq!(decimal_text(parsed(text).unwrap()), text);
    }
}

#[test]
fn decimal_text_drops_leading_zeros() {
    assert_eq!(decimal_text(parsed("00").unwrap()), "0");
    assert_eq!(decimal_text(parsed("0042").unwrap()), "42");
}

#[test]
fn parse_decimal_reads_back_decimal_text() {
    for n in [0u64, 1, 9, 10, 99, 100, 1500, 4294967295, 4294967296, u64::MAX - 1, u64::MAX] {
        assert_eq!(parsed(&decimal_text(n)), Some(n));
    }
}
