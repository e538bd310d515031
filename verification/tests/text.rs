use codex_reset_watch::text::{char_is_white_space, contains, parse_unsigned, same_text, trimmed};

#[test]
fn trimming_removes_unicode_whitespace_at_both_ends() {
    assert_eq!(trimmed("  a b \t\n"), "a b");
    assert_eq!(trimmed("\u{3000}\u{a0}x\u{2028}"), "x");
    assert_eq!(trimmed(" \r\n "), "");
    assert_eq!(trimmed(""), "");
    assert_eq!(trimmed("\u{200b}x"), "\u{200b}x");
    assert!(char_is_white_space('\u{85}'));
    assert!(!char_is_white_space('_'));
}

#[test]
fn unsigned_parsing_matches_from_str() {
    assert_eq!(parse_unsigned("42", u64::MAX), Some(42));
    assert_eq!(parse_unsigned("+42", u64::MAX), Some(42));
    assert_eq!(parse_unsigned("007", 255), Some(7));
    assert_eq!(parse_unsigned("", u64::MAX), None);
    assert_eq!(parse_unsigned("+", u64::MAX), None);
    assert_eq!(parse_unsigned("-1", u64::MAX), None);
    assert_eq!(parse_unsigned("4 2", u64::MAX), None);
    assert_eq!(parse_unsigned("256", 255), None);
    assert_eq!(parse_unsigned("255", 255), Some(255));
    assert_eq!(parse_unsigned("18446744073709551615", u64::MAX), Some(u64::MAX));
    assert_eq!(parse_unsigned("18446744073709551616", u64::MAX), None);
    for text in ["0", "65535", "65536", "+1", "1_0", "٣"] {
        assert_eq!(parse_unsigned(text, u16::MAX as u64), text.parse::<u16>().ok().map(u64::from));
    }
}

#[test]
fn text_comparison_and_search() {
    assert!(same_text("abc", "abc"));
    assert!(!same_text("abc", "abd"));
    assert!(!same_text("abc", "ab"));
    assert!(contains("sqlite::memory:", ":memory:"));
    assert!(contains("abc", ""));
    assert!(!contains("sqlite://file.db", ":memory:"));
    assert!(!contains(":memory", ":memory:"));
}
