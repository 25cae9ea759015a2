use std::cmp::Ordering;

use railway_config::prompt::{format_answer_if_blank, validate_u64_input};
use railway_config::semver::{compare_semver, newer_version, parse_version, strip_leading_v};

#[test]
fn newer_patch_is_reported() {
    assert_eq!(newer_version("3.2.0", "3.2.1"), Some("3.2.1".to_string()));
    assert_eq!(newer_version("3.2.0", "v3.2.1"), Some("3.2.1".to_string()));
}

#[test]
fn older_or_equal_is_not_reported() {
    assert_eq!(newer_version("3.2.1", "3.2.0"), None);
    assert_eq!(newer_version("3.2.1", "v3.2.1"), None);
}

#[test]
fn compare_is_numeric_per_component() {
    assert_eq!(compare_semver("3.10.0", "3.9.9"), Ordering::Greater);
    assert_eq!(compare_semver("1.2", "1.2.0"), Ordering::Equal);
    assert_eq!(compare_semver("1.2", "1.2.1"), Ordering::Less);
    assert_eq!(compare_semver("2.0.0", "10.0.0"), Ordering::Less);
    assert_eq!(compare_semver("4.0.0", "4.0.0"), Ordering::Equal);
    assert_eq!(compare_semver("1.0.0-beta.2", "1.0.0"), Ordering::Greater);
}

#[test]
fn version_components_take_leading_digits() {
    assert_eq!(parse_version("3.2.1"), vec![3, 2, 1]);
    assert_eq!(parse_version("1.0.0-beta.2"), vec![1, 0, 0, 2]);
    assert_eq!(parse_version(""), vec![0]);
    assert_eq!(parse_version("99999999999999999999999"), vec![u64::MAX]);
    assert_eq!(parse_version("18446744073709551615.1"), vec![u64::MAX, 1]);
}

#[test]
fn strip_all_leading_v() {
    assert_eq!(strip_leading_v("vv1.0"), "1.0");
    assert_eq!(strip_leading_v("1.0v"), "1.0v");
    assert_eq!(strip_leading_v(""), "");
}

#[test]
fn u64_answers_are_validated() {
    assert!(validate_u64_input("42"));
    assert!(validate_u64_input("+7"));
    assert!(validate_u64_input("18446744073709551615"));
    assert!(!validate_u64_input("18446744073709551616"));
    assert!(!validate_u64_input(""));
    assert!(!validate_u64_input("-1"));
    assert!(!validate_u64_input(" 1"));
    assert!(!validate_u64_input("1a"));
}

#[test]
fn blank_answers_show_message() {
    assert_eq!(format_answer_if_blank("", "(none)"), "(none)");
    assert_eq!(format_answer_if_blank("x", "(none)"), "x");
}
