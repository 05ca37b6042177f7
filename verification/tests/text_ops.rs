use hoyolab_auto::text::{
    chars_of, contains, count_text, decimal_text, is_blank_str, same_text, starts_with,
    white_space,
};

#[test]
fn blank_text_is_white_space_only() {
    assert!(is_blank_str(""));
    assert!(is_blank_str(" \t\r\n"));
    assert!(is_blank_str("\u{3000}\u{a0}"));
    assert!(!is_blank_str(" 1 "));
    assert!(!is_blank_str("x"));
}

#[test]
fn white_space_agrees_with_std() {
    for c in ['a', ' ', '\t', '\u{85}', '\u{2028}', '\u{200b}', '\u{3000}', 'あ', '\u{1680}'] {
        assert_eq!(white_space(c), c.is_whitespace());
    }
}

#[test]
fn chars_of_keeps_order() {
    assert_eq!(chars_of("原神 ok"), vec!['原', '神', ' ', 'o', 'k']);
}

#[test]
fn contains_and_starts_with() {
    assert!(contains("❌ Redeem failed 400", "❌ Redeem failed"));
    assert!(!contains("Redeem failed", "❌ Redeem failed"));
    assert!(contains("abc", ""));
    assert!(contains("aab", "ab"));
    assert!(!contains("ab", "abc"));
    assert!(starts_with("key = value", "key = "));
    assert!(!starts_with("key=value", "key = "));
    assert!(!starts_with("ke", "key"));
}

#[test]
fn same_text_compares_characters() {
    assert!(same_text("POST", "POST"));
    assert!(!same_text("POST", "post"));
    assert!(!same_text("GET", "GETS"));
}

#[test]
fn decimal_text_matches_display() {
    for n in [0i64, 7, 10, 42, -1, -5003, i64::MAX, i64::MIN] {
        assert_eq!(decimal_text(n), n.to_string());
    }
    for n in [0usize, 9, 31, 1000] {
        assert_eq!(count_text(n), n.to_string());
    }
}
