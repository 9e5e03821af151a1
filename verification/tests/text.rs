use k0_core::text::{i32_to_string, i64_to_string, parse_i64, str_eq, str_lex_lt, str_starts_with};

#[test]
fn decimal_rendering() {
    assert_eq!(i64_to_string(0), "0");
    assert_eq!(i64_to_string(42), "42");
    assert_eq!(i64_to_string(-42), "-42");
    assert_eq!(i64_to_string(i64::MIN), "-9223372036854775808");
    assert_eq!(i64_to_string(i64::MAX), "9223372036854775807");
    assert_eq!(i32_to_string(i32::MIN), "-2147483648");
}

#[test]
fn decimal_parsing() {
    assert_eq!(parse_i64("0"), Some(0));
    assert_eq!(parse_i64("123"), Some(123));
    assert_eq!(parse_i64("+123"), Some(123));
    assert_eq!(parse_i64("-123"), Some(-123));
    assert_eq!(parse_i64("007"), Some(7));
    assert_eq!(parse_i64("9223372036854775807"), Some(i64::MAX));
    assert_eq!(parse_i64("-9223372036854775808"), Some(i64::MIN));
    assert_eq!(parse_i64("9223372036854775808"), None);
    assert_eq!(parse_i64("-9223372036854775809"), None);
    assert_eq!(parse_i64(""), None);
    assert_eq!(parse_i64("-"), None);
    assert_eq!(parse_i64("+"), None);
    assert_eq!(parse_i64("12a"), None);
    assert_eq!(parse_i64(" 12"), None);
}

#[test]
fn text_comparisons() {
    assert!(str_eq("abc", "abc"));
    assert!(!str_eq("abc", "abd"));
    assert!(!str_eq("abc", "ab"));
    assert!(str_lex_lt("abc", "abd"));
    assert!(str_lex_lt("", "a"));
    assert!(!str_lex_lt("a", ""));
    assert!(!str_lex_lt("abc", "abc"));
    assert!(str_lex_lt("2024-01-01T00:00:00Z", "2024-01-02T00:00:00Z"));
    assert!(str_starts_with("deployment/web", "deployment/"));
    assert!(!str_starts_with("dep", "deployment/"));
    assert!(str_starts_with("anything", ""));
}
