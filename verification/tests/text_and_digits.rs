use ironclaw::digits::{decimal_text, parse_unsigned, signed_decimal_text};
use ironclaw::text::{
    contains_text, ends_with_text, joined, lower_text, normalized_list, remove_text, same_text,
    starts_with_text, text_less, trim_start_text, trim_text, upper_text,
};

#[test]
fn white_space_is_that_of_the_standard_library() {
    for code in 0..0x3100u32 {
        if let Some(c) = char::from_u32(code) {
            let text = format!("{c}a{c}");
            assert_eq!(trim_text(&text), text.trim());
            assert_eq!(trim_start_text(&text), text.trim_start());
        }
    }
}

#[test]
fn white_space_has_no_other_characters() {
    // The characters that the contract of the white-space test names.
    let named = [
        '\u{9}', '\u{a}', '\u{b}', '\u{c}', '\u{d}', ' ', '\u{85}', '\u{a0}', '\u{1680}',
        '\u{2000}', '\u{2001}', '\u{2002}', '\u{2003}', '\u{2004}', '\u{2005}', '\u{2006}',
        '\u{2007}', '\u{2008}', '\u{2009}', '\u{200a}', '\u{2028}', '\u{2029}', '\u{202f}',
        '\u{205f}', '\u{3000}',
    ];
    let found: Vec<char> = (0..0x110000u32)
        .filter_map(char::from_u32)
        .filter(|c| c.is_whitespace())
        .collect();
    assert_eq!(found, named);
}

#[test]
fn trimming_and_case() {
    assert_eq!(trim_text(""), "");
    assert_eq!(trim_text(" \t\n"), "");
    assert_eq!(trim_text("  a b  "), "a b");
    assert_eq!(lower_text("ABCÄ z1"), "abcÄ z1");
    assert_eq!(upper_text("abcä Z1"), "ABCä Z1");
}

#[test]
fn searching() {
    assert!(contains_text("hello", "ell"));
    assert!(contains_text("hello", ""));
    assert!(contains_text("", ""));
    assert!(!contains_text("hell", "hello"));
    assert!(contains_text("aab", "ab"));
    assert!(starts_with_text("€uro", "€"));
    assert!(!starts_with_text("e", "€uro"));
    assert!(ends_with_text("€uro", "uro"));
    assert!(!ends_with_text("uro", "€uro"));
    assert!(same_text("ä", "ä"));
    assert!(!same_text("ä", "a"));
    assert_eq!(joined("a", "€"), "a€");
}

#[test]
fn removing_agrees_with_the_standard_library() {
    for (hay, needle) in [
        ("aaa", "aa"),
        ("aXbXc", "X"),
        ("XX", "X"),
        ("", "X"),
        ("ababa", "aba"),
        ("€x€x", "€x"),
        ("abc", "z"),
    ] {
        assert_eq!(remove_text(hay, needle), hay.replace(needle, ""));
    }
}

#[test]
fn order_agrees_with_the_standard_library() {
    let texts = ["", "a", "ab", "b", "9", "10", "é", "z", "€", "🤔"];
    for a in texts {
        for b in texts {
            assert_eq!(text_less(a, b), a < b);
        }
    }
}

#[test]
fn lists() {
    assert_eq!(normalized_list("a, B ,,c"), vec!["a", "b", "c"]);
    assert_eq!(normalized_list(",, ,"), Vec::<String>::new());
}

#[test]
fn numbers_are_read_as_the_standard_library_reads_them() {
    for text in [
        "", "0", "7", "007", "+7", "+", "-1", " 1", "1 ", "1_0", "++1", "18446744073709551615",
        "18446744073709551616", "99999999999999999999999", "12a", "٣",
    ] {
        assert_eq!(parse_unsigned(text), text.parse::<u64>().ok());
    }
}

#[test]
fn numbers_are_written_and_read_back() {
    for n in [0u64, 9, 10, 99, 100, 989554992786579536, u64::MAX] {
        assert_eq!(decimal_text(n), n.to_string());
        assert_eq!(parse_unsigned(&decimal_text(n)), Some(n));
    }
    for n in [0i64, 7, -7, i64::MAX, i64::MIN] {
        assert_eq!(signed_decimal_text(n), n.to_string());
    }
}
