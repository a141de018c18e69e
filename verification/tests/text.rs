use aistore::text::{
    chars_of, decimal_text, join, parse_u64, same_text, same_text_ignore_ascii_case, string_of,
    trim_matches,
};

#[test]
fn decimal_text_writes_plain_digits() {
    assert_eq!(decimal_text(0), "0");
    assert_eq!(decimal_text(7), "7");
    assert_eq!(decimal_text(10), "10");
    assert_eq!(decimal_text(1000), "1000");
    assert_eq!(decimal_text(18446744073709551615), "18446744073709551615");
    assert_eq!(
        decimal_text(u128::MAX),
        "340282366920938463463374607431768211455"
    );
}

#[test]
fn parse_u64_reads_digits() {
    assert_eq!(parse_u64("0"), Some(0));
    assert_eq!(parse_u64("42"), Some(42));
    assert_eq!(parse_u64("007"), Some(7));
    assert_eq!(parse_u64("18446744073709551615"), Some(u64::MAX));
}

#[test]
fn parse_u64_takes_a_leading_plus() {
    assert_eq!(parse_u64("+5"), Some(5));
    assert_eq!(parse_u64("+"), None);
    assert_eq!(parse_u64("++5"), None);
}

#[test]
fn parse_u64_refuses_what_is_no_number() {
    assert_eq!(parse_u64(""), None);
    assert_eq!(parse_u64("-1"), None);
    assert_eq!(parse_u64("12a"), None);
    assert_eq!(parse_u64(" 12"), None);
    assert_eq!(parse_u64("1 2"), None);
    assert_eq!(parse_u64("١٢"), None);
}

#[test]
fn parse_u64_refuses_what_does_not_fit() {
    assert_eq!(parse_u64("18446744073709551616"), None);
    assert_eq!(parse_u64("99999999999999999999999"), None);
}

#[test]
fn parse_u64_agrees_with_std() {
    for text in ["0", "+0", "123", "+", "", "-0", "0x10", "18446744073709551615", "18446744073709551616"] {
        assert_eq!(parse_u64(text), text.parse::<u64>().ok(), "{}", text);
    }
}

#[test]
fn parse_reads_back_what_decimal_text_wrote() {
    for n in [0u64, 1, 9, 10, 99, 100, 12345, u64::MAX] {
        assert_eq!(parse_u64(&decimal_text(n as u128)), Some(n));
    }
}

#[test]
fn trim_matches_strips_both_ends() {
    assert_eq!(trim_matches("\"abc\"", '"'), "abc");
    assert_eq!(trim_matches("\"\"abc\"", '"'), "abc");
    assert_eq!(trim_matches("abc", '"'), "abc");
    assert_eq!(trim_matches("a\"b", '"'), "a\"b");
    assert_eq!(trim_matches("\"\"", '"'), "");
    assert_eq!(trim_matches("", '"'), "");
}

#[test]
fn comparing_without_case_folds_ascii_only() {
    assert!(same_text_ignore_ascii_case("ETag", "etag"));
    assert!(same_text_ignore_ascii_case("Content-Length", "content-length"));
    assert!(!same_text_ignore_ascii_case("etag", "etags"));
    assert!(!same_text_ignore_ascii_case("É", "é"));
    assert!(same_text("abc", "abc"));
    assert!(!same_text("abc", "abd"));
}

#[test]
fn strings_survive_the_trip_through_characters() {
    let text = "héllo/wörld";
    assert_eq!(string_of(&chars_of(text)), text);
    assert_eq!(join("a", "b"), "ab");
    assert_eq!(join("", ""), "");
}
