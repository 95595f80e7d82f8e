use foundation_api::lang::Language;
use foundation_api::markup::render_markdown;
use foundation_api::order::str_lt;
use foundation_api::text::{ends_with, parse_i32, parse_u32, parse_u8, split_str, str_eq};

#[test]
fn numbers_are_read_as_str_parse_reads_them() {
    assert_eq!(parse_i32("-5"), Some(-5));
    assert_eq!(parse_i32("-2147483648"), Some(i32::MIN));
    assert_eq!(parse_i32("2147483647"), Some(i32::MAX));
    assert_eq!(parse_i32("2147483648"), None);
    assert_eq!(parse_i32("-"), None);
    assert_eq!(parse_u8("+12"), Some(12));
    assert_eq!(parse_u8("256"), None);
    assert_eq!(parse_u32(""), None);
    assert_eq!(parse_u32("007"), Some(7));
    assert_eq!(parse_u32("4294967295"), Some(u32::MAX));
    assert_eq!(parse_u32("99999999999999999999"), None);
    assert_eq!(parse_u32("1a"), None);
}

#[test]
fn strings_are_split_and_compared() {
    assert_eq!(split_str("a..b.", '.'), vec!["a", "", "b", ""]);
    assert!(str_eq("abc", "abc"));
    assert!(!str_eq("abc", "abd"));
    assert!(ends_with("x.adoc", ".adoc"));
    assert!(!ends_with("adoc", ".adoc"));
    assert!(str_lt("Zeta", "alpha"));
    assert!(str_lt("ab", "abc"));
    assert!(!str_lt("abc", "abc"));
    assert!(str_lt("é", "ü"));
}

#[test]
fn language_codes() {
    assert_eq!(Language::from_code("en"), Some(Language::English));
    assert_eq!(Language::from_code("de"), Some(Language::German));
    assert_eq!(Language::from_code("EN"), None);
    assert_eq!(Language::German.code(), "de");
}

#[test]
fn markdown_is_rendered() {
    assert_eq!(render_markdown("*hi*"), "<p><em>hi</em></p>");
}
