use rope::text::{
    begins_with, byte_len, bytes_before, bytes_from, contains, decimal, ends_with, first_chars,
    floor_char_boundary, is_control, is_less, is_white_space, join_all, parse_unsigned,
    signed_decimal, split_lines, split_words, strip_prefix, to_lower, trimmed, without_trailing,
};

#[test]
fn characters_are_of_the_kinds_that_std_knows() {
    for c in '\0'..=char::MAX {
        assert_eq!(is_white_space(c), c.is_whitespace(), "{c:?}");
        assert_eq!(is_control(c), c.is_control(), "{c:?}");
    }
}

#[test]
fn only_ascii_letters_are_lowered() {
    assert_eq!(to_lower("AbZ\u{c9}"), "abz\u{c9}");
}

#[test]
fn texts_are_trimmed_and_split() {
    assert_eq!(trimmed(" \ta b\u{3000}"), "a b");
    assert_eq!(without_trailing("a//", '/'), "a");
    assert_eq!(split_lines("a\r\nb\n\nc"), ["a", "b", "", "c"]);
    assert!(split_lines("").is_empty());
    assert_eq!(split_words("  a \n b\u{a0}c "), ["a", "b", "c"]);
    assert_eq!(join_all(&vec!["a".into(), "b".into()], ", "), "a, b");
    assert_eq!(first_chars("\u{e9}t\u{e9}", 2), "\u{e9}t");
    assert_eq!(strip_prefix("session-1", "session-").as_deref(), Some("1"));
    assert_eq!(strip_prefix("x", "session-"), None);
}

#[test]
fn texts_are_compared() {
    assert!(is_less("a", "b"));
    assert!(is_less("", "a"));
    assert!(is_less("Z", "a"));
    assert!(!is_less("ab", "a"));
    assert!(!is_less("a", "a"));
    assert!(begins_with("hello", "he") && ends_with("hello", "lo") && contains("hello", "ell"));
    assert!(!contains("hello", "elo"));
}

#[test]
fn numbers_are_written_and_read() {
    assert_eq!(decimal(0), "0");
    assert_eq!(decimal(u64::MAX), u64::MAX.to_string());
    assert_eq!(signed_decimal(-1), "-1");
    assert_eq!(signed_decimal(i32::MIN), i32::MIN.to_string());
    for text in ["0", "007", "+5", "18446744073709551615", "18446744073709551616", "", "-1", "1a", "+"] {
        assert_eq!(parse_unsigned(text), text.parse::<u64>().ok(), "{text}");
    }
}

#[test]
fn texts_are_cut_between_characters() {
    let text = "a\u{e9}b";
    assert_eq!(byte_len(text), 4);
    assert_eq!(floor_char_boundary(text, 2), 1);
    assert_eq!(floor_char_boundary(text, 3), 3);
    assert_eq!(floor_char_boundary(text, 9), 4);
    assert_eq!(bytes_before(text, 3), "a\u{e9}");
    assert_eq!(bytes_from(text, 3), "b");
}
