use bagsakan::pattern::{apply_pattern, capture_first, unapply_pattern};
use bagsakan::resolve::{is_bare_specifier, package_name_of};
use bagsakan::text::{i128_dec, replace_all, split_lines, str_contains, str_eq, str_lt};

#[test]
fn replace_all_basics() {
    assert_eq!(replace_all("a%(type)b", "%(type)", "User"), "aUserb");
    assert_eq!(replace_all("xx", "%(type)", "User"), "xx");
    assert_eq!(replace_all("aaa", "a", "bb"), "bbbbbb");
    assert_eq!(replace_all("abc", "", "z"), "abc");
}

#[test]
fn string_comparisons() {
    assert!(str_eq("abc", "abc"));
    assert!(!str_eq("abc", "abd"));
    assert!(str_lt("abc", "abd"));
    assert!(str_lt("ab", "abc"));
    assert!(!str_lt("abc", "abc"));
    assert!(str_lt("Order", "User"));
}

#[test]
fn substring_search() {
    assert!(str_contains("hello world", "o w"));
    assert!(!str_contains("hello", "world"));
    assert!(str_contains("abc", ""));
}

#[test]
fn decimal_rendering() {
    assert_eq!(i128_dec(0), "0");
    assert_eq!(i128_dec(42), "42");
    assert_eq!(i128_dec(-7), "-7");
    assert_eq!(i128_dec(1005), "1005");
    assert_eq!(i128_dec(i128::MAX), format!("{}", i128::MAX));
    assert_eq!(i128_dec(i128::MIN), format!("{}", i128::MIN));
}

#[test]
fn line_splitting() {
    let lines = split_lines("a\nbb\n\nc");
    assert_eq!(lines, vec!["a", "bb", "", "c"]);
    let lines2 = split_lines("one\n");
    assert_eq!(lines2, vec!["one"]);
    assert!(split_lines("").is_empty());
}

#[test]
fn pattern_application_round_trip() {
    assert_eq!(apply_pattern("validate%(type)", "User"), "validateUser");
    assert_eq!(
        unapply_pattern("validate%(type)", "validateUser"),
        Some("User".to_string())
    );
    assert_eq!(unapply_pattern("validate%(type)", "validate"), None);
    assert_eq!(unapply_pattern("validate%(type)", "checkUser"), None);
    assert_eq!(
        unapply_pattern("is%(type)Valid", "isUserValid"),
        Some("User".to_string())
    );
}

#[test]
fn capture_first_group() {
    assert_eq!(
        capture_first("validate([A-Z][a-zA-Z]+)", "validateUser"),
        Some("User".to_string())
    );
    assert_eq!(capture_first("validate([A-Z][a-zA-Z]+)", "checkUser"), None);
    // an invalid pattern matches nothing
    assert_eq!(capture_first("validate(", "validateUser"), None);
}

#[test]
fn specifier_classification() {
    assert!(is_bare_specifier("lodash"));
    assert!(is_bare_specifier("@scope/pkg"));
    assert!(!is_bare_specifier("./local"));
    assert!(!is_bare_specifier("/abs/path"));
    assert_eq!(package_name_of("lodash/fp/map"), "lodash");
    assert_eq!(package_name_of("lodash"), "lodash");
}
