//! Characters, texts and numbers beside those of the standard library.

use secretd::numeral::{parse_u32, u128_text, u16_hex, u64_text};
use secretd::text;

fn every_char() -> impl Iterator<Item = char> {
    (0u32..=0x10ffff).filter_map(char::from_u32)
}

#[test]
fn characters_are_classified_as_the_standard_library_does() {
    for c in every_char() {
        assert_eq!(text::char_is_whitespace(c), c.is_whitespace(), "{c:?}");
        assert_eq!(text::char_is_control(c), c.is_control(), "{c:?}");
        assert_eq!(text::char_is_ascii_digit(c), c.is_ascii_digit(), "{c:?}");
        assert_eq!(text::char_is_ascii_alphanumeric(c), c.is_ascii_alphanumeric(), "{c:?}");
        assert_eq!(text::char_ascii_lower(c), c.to_ascii_lowercase(), "{c:?}");
    }
}

const SAMPLES: [&str; 12] = [
    "",
    " ",
    "plain",
    "  padded\t\n",
    "a/b//c/",
    "/",
    "\u{a0}wide\u{3000}",
    "Grüße aus Köln",
    "one  two\tthree\r\nfour\n",
    "line\n\nline\r\n",
    "\u{10ffff}x",
    "a\\b\\c",
];

#[test]
fn texts_are_cut_as_the_standard_library_does() {
    for s in SAMPLES {
        assert_eq!(text::trim(s), s.trim());
        assert_eq!(text::to_lower(s), s.to_ascii_lowercase());
        assert_eq!(text::replace_char(s, '\\', '/'), s.replace('\\', "/"));
        assert_eq!(text::split_char(s, '/'), s.split('/').collect::<Vec<_>>());
        assert_eq!(text::split_words(s), s.split_whitespace().collect::<Vec<_>>());
        assert_eq!(text::split_lines(s), s.lines().collect::<Vec<_>>());
        assert_eq!(text::last_piece(s, '/'), s.rsplit('/').next().unwrap());
        assert_eq!(text::char_count(s), s.chars().count());
        assert_eq!(text::contains_control(s), s.chars().any(char::is_control));
        assert_eq!(text::contains_char(s, 'b'), s.contains('b'));
        assert_eq!(text::leading_word(s), s.split_whitespace().next().unwrap_or_default());
    }
}

#[test]
fn texts_are_compared_as_the_standard_library_does() {
    for a in SAMPLES {
        for b in SAMPLES {
            assert_eq!(text::str_eq(a, b), a == b);
            assert_eq!(text::str_precedes(a, b), a < b);
            assert_eq!(text::contains_part(a, b), a.contains(b));
            assert_eq!(text::starts_with(a, b), a.starts_with(b));
            assert_eq!(text::concat(a, b), format!("{a}{b}"));
        }
    }
    let texts = vec!["a".to_owned(), "b".to_owned()];
    assert!(text::contains_text(&texts, "b"));
    assert!(!text::contains_text(&texts, "c"));
}

#[test]
fn numbers_are_written_and_read() {
    for n in [0, 7, 10, 99, 100, 12_345, u64::MAX] {
        assert_eq!(u64_text(n), n.to_string());
    }
    assert_eq!(u128_text(u128::MAX), u128::MAX.to_string());
    for n in [0, 1, 80, 0xabc, u16::MAX] {
        assert_eq!(u16_hex(n), format!("{n:04X}"));
    }
    for s in ["", "+", "0", "+7", "-1", "007", "4294967295", "4294967296", "1 ", "x", "++1"] {
        assert_eq!(parse_u32(s), s.parse::<u32>().ok(), "{s}");
    }
}
