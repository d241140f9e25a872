use file_explorer::text::{
    blank, contains, join, replace_char, starts_with, str_eq, to_ascii_lowercase, trim,
    u64_to_decimal, utf8_len_below,
};

#[test]
fn trim_removes_unicode_whitespace() {
    assert_eq!(trim("  hello \t\n"), "hello");
    assert_eq!(trim("\u{3000}wide\u{a0}"), "wide");
    assert_eq!(trim("   "), "");
}

#[test]
fn blank_means_only_whitespace() {
    assert!(blank(""));
    assert!(blank(" \n\t"));
    assert!(!blank(" x "));
}

#[test]
fn ascii_lowercase_leaves_other_letters() {
    assert_eq!(to_ascii_lowercase("JPG.Ärger"), "jpg.Ärger");
}

#[test]
fn contains_and_starts_with() {
    assert!(contains("holiday-photo.png", "photo"));
    assert!(!contains("holiday", "photos"));
    assert!(contains("abc", ""));
    assert!(starts_with("data:image/png", "data:image"));
    assert!(!starts_with("dat", "data"));
}

#[test]
fn decimal_digits() {
    assert_eq!(u64_to_decimal(0), "0");
    assert_eq!(u64_to_decimal(4096), "4096");
    assert_eq!(u64_to_decimal(u64::MAX), "18446744073709551615");
}

#[test]
fn replace_and_join() {
    assert_eq!(replace_char("a\nb\nc", '\n', ' '), "a b c");
    let parts = vec!["a".to_string(), "b".to_string(), "c".to_string()];
    assert_eq!(join(&parts, "|"), "a|b|c");
    assert_eq!(join(&Vec::new(), "|"), "");
}

#[test]
fn string_equality_and_utf8_length() {
    assert!(str_eq("abc", "abc"));
    assert!(!str_eq("abc", "abd"));
    assert!(utf8_len_below("héllo", 7));
    assert!(!utf8_len_below("héllo", 6));
}
