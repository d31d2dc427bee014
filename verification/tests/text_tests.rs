use check_mailcow::text::i64_string;
use check_mailcow::text::parse_i64_or_zero;
use check_mailcow::text::str_contains;
use check_mailcow::text::u64_string;

#[test]
fn decimal_rendering_matches_the_usual_notation() {
    assert_eq!(u64_string(0), "0");
    assert_eq!(u64_string(7), "7");
    assert_eq!(u64_string(1234235236), "1234235236");
    assert_eq!(u64_string(u64::MAX), "18446744073709551615");
}

#[test]
fn signed_rendering_carries_the_sign() {
    assert_eq!(i64_string(-1), "-1");
    assert_eq!(i64_string(42), "42");
    assert_eq!(i64_string(i64::MIN), "-9223372036854775808");
}

#[test]
fn parsing_accepts_what_the_standard_parser_accepts() {
    assert_eq!(parse_i64_or_zero("0"), 0);
    assert_eq!(parse_i64_or_zero("1234235236"), 1234235236);
    assert_eq!(parse_i64_or_zero("-60"), -60);
    assert_eq!(parse_i64_or_zero("+9"), 9);
    assert_eq!(parse_i64_or_zero("9223372036854775807"), i64::MAX);
    assert_eq!(parse_i64_or_zero("-9223372036854775808"), i64::MIN);
}

#[test]
fn parsing_anything_else_gives_zero() {
    assert_eq!(parse_i64_or_zero(""), 0);
    assert_eq!(parse_i64_or_zero("-"), 0);
    assert_eq!(parse_i64_or_zero("12a"), 0);
    assert_eq!(parse_i64_or_zero(" 5"), 0);
    assert_eq!(parse_i64_or_zero("9223372036854775808"), 0);
    assert_eq!(parse_i64_or_zero("184467440737095516150"), 0);
}

#[test]
fn substring_search_finds_inner_matches_only() {
    assert!(str_contains("550 5.7.1 Session encryption is required", "5.7.1"));
    assert!(str_contains("abc", ""));
    assert!(!str_contains("ab", "abc"));
    assert!(!str_contains("Session encryption", "session"));
}
