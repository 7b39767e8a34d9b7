use kasugai_converter::text::{
    contains, decimal, ends_with, join, parse_decimal, replace, signed_decimal, split_on, split_whitespace, starts_with, trim,
};

#[test]
fn trim_removes_unicode_whitespace() {
    assert_eq!(trim("  \t abc \u{3000}\n"), "abc");
    assert_eq!(trim("\u{a0}\u{2003}x y\u{205f}"), "x y");
    assert_eq!(trim("   "), "");
    assert_eq!(trim(""), "");
}

#[test]
fn replace_is_left_to_right_and_non_overlapping() {
    assert_eq!(replace("aaa", "aa", "b"), "ba");
    assert_eq!(replace("a~b/c", "~", "~0"), "a~0b/c");
    assert_eq!(replace("x\"y\"", "\"", "\\\""), "x\\\"y\\\"");
    assert_eq!(replace("none", "zz", "q"), "none");
}

#[test]
fn split_keeps_empty_pieces() {
    assert_eq!(split_on("a,,b", &vec![',']), vec!["a", "", "b"]);
    assert_eq!(split_on("", &vec![',']), vec![""]);
    assert_eq!(split_on("x y\u{3000}z", &vec![' ', '\u{3000}']), vec!["x", "y", "z"]);
}

#[test]
fn split_whitespace_drops_empty_words() {
    assert_eq!(split_whitespace("  -Xmx4g   -Dfoo=bar \t"), vec!["-Xmx4g", "-Dfoo=bar"]);
    assert!(split_whitespace(" \n ").is_empty());
}

#[test]
fn join_and_affixes() {
    assert_eq!(join(&vec!["a".to_string(), "b".to_string(), "c".to_string()], " OR "), "a OR b OR c");
    assert_eq!(join(&vec![], ", "), "");
    assert!(starts_with("https://x", "https://"));
    assert!(!starts_with("http", "https://"));
    assert!(ends_with("file.zip", ".zip"));
    assert!(!ends_with("zip", ".zip"));
    assert!(contains("abc", ""));
    assert!(contains("https://data-platform.mlit.go.jp/api", "mlit.go.jp"));
    assert!(!contains("abc", "abcd"));
}

#[test]
fn decimal_forms() {
    assert_eq!(decimal(0), "0");
    assert_eq!(decimal(1000), "1000");
    assert_eq!(decimal(u64::MAX), u64::MAX.to_string());
    assert_eq!(signed_decimal(-1), "-1");
    assert_eq!(signed_decimal(i32::MIN), i32::MIN.to_string());
    assert_eq!(signed_decimal(42), "42");
}

#[test]
fn decimal_numerals_parse_back() {
    assert_eq!(parse_decimal("0"), Some(0));
    assert_eq!(parse_decimal("42"), Some(42));
    assert_eq!(parse_decimal("18446744073709551615"), Some(u64::MAX));
    assert_eq!(parse_decimal(&decimal(123456789)), Some(123456789));
    assert_eq!(parse_decimal(""), None);
    assert_eq!(parse_decimal("007"), None);
    assert_eq!(parse_decimal("12a"), None);
    assert_eq!(parse_decimal("-1"), None);
    assert_eq!(parse_decimal("18446744073709551616"), None);
}
