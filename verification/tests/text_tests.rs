use daktronics_singular_ui::text::{chars_of, parse_i32_chars, string_from_chars, trim_chars};

fn parse(s: &str) -> Option<i32> {
    parse_i32_chars(&chars_of(s))
}

#[test]
fn parses_plain_and_signed_integers() {
    assert_eq!(parse("0"), Some(0));
    assert_eq!(parse("45"), Some(45));
    assert_eq!(parse("+5"), Some(5));
    assert_eq!(parse("-30"), Some(-30));
    assert_eq!(parse("007"), Some(7));
}

#[test]
fn parses_the_full_i32_range_and_nothing_more() {
    assert_eq!(parse("2147483647"), Some(i32::MAX));
    assert_eq!(parse("-2147483648"), Some(i32::MIN));
    assert_eq!(parse("2147483648"), None);
    assert_eq!(parse("-2147483649"), None);
    assert_eq!(parse("99999999999999999999"), None);
}

#[test]
fn rejects_malformed_numbers() {
    assert_eq!(parse(""), None);
    assert_eq!(parse("+"), None);
    assert_eq!(parse("-"), None);
    assert_eq!(parse("1a"), None);
    assert_eq!(parse(" 1"), None);
    assert_eq!(parse("1 "), None);
    assert_eq!(parse("1.5"), None);
}

#[test]
fn parse_agrees_with_the_standard_library() {
    for s in ["12", "-0", "+000", "2147483648", "x", "", "4 4", "-2147483648"] {
        assert_eq!(parse(s), s.parse::<i32>().ok(), "input {:?}", s);
    }
}

#[test]
fn trim_removes_surrounding_whitespace_only() {
    let trimmed = trim_chars(&chars_of("  a b\t\r\n"));
    assert_eq!(string_from_chars(&trimmed), "a b");
    let all_ws = trim_chars(&chars_of(" \t "));
    assert_eq!(string_from_chars(&all_ws), "");
    let untouched = trim_chars(&chars_of("x"));
    assert_eq!(string_from_chars(&untouched), "x");
}

#[test]
fn chars_round_trip_through_strings() {
    let original = "héllo ⚽ world";
    assert_eq!(string_from_chars(&chars_of(original)), original);
}
