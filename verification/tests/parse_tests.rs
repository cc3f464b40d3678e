use mandelbrot::parse::{parse_i32, parse_pair_i32, split_pair};

#[test]
fn test_parse_pair() {
    assert_eq!(parse_pair_i32("", ','), None);
    assert_eq!(parse_pair_i32("10,", ','), None);
    assert_eq!(parse_pair_i32(",10", ','), None);
    assert_eq!(parse_pair_i32("10,20", ','), Some((10, 20)));
    assert_eq!(parse_pair_i32("10,20xy", ','), None);
}

#[test]
fn parse_pair_takes_first_separator() {
    assert_eq!(parse_pair_i32("10,20,30", ','), None);
    assert_eq!(parse_pair_i32("1x2", 'x'), Some((1, 2)));
}

#[test]
fn parse_pair_signed_values() {
    assert_eq!(parse_pair_i32("-5,+7", ','), Some((-5, 7)));
    assert_eq!(parse_pair_i32("-0,0", ','), Some((0, 0)));
}

#[test]
fn test_split_pair() {
    assert_eq!(
        split_pair("0.5x1.5", 'x'),
        Some(("0.5".to_string(), "1.5".to_string()))
    );
    assert_eq!(split_pair("0.5x", 'x'), Some(("0.5".to_string(), String::new())));
    assert_eq!(split_pair("x1.5", 'x'), Some((String::new(), "1.5".to_string())));
    assert_eq!(split_pair("", ','), None);
    assert_eq!(split_pair("1020", ','), None);
}

#[test]
fn split_pair_splits_at_first_occurrence() {
    assert_eq!(
        split_pair("a,b,c", ','),
        Some(("a".to_string(), "b,c".to_string()))
    );
}

#[test]
fn parse_i32_plain_and_signed() {
    assert_eq!(parse_i32("10"), Some(10));
    assert_eq!(parse_i32("-7"), Some(-7));
    assert_eq!(parse_i32("+7"), Some(7));
    assert_eq!(parse_i32("007"), Some(7));
    assert_eq!(parse_i32("0"), Some(0));
}

#[test]
fn parse_i32_rejects_malformed_text() {
    assert_eq!(parse_i32(""), None);
    assert_eq!(parse_i32("-"), None);
    assert_eq!(parse_i32("+"), None);
    assert_eq!(parse_i32("1 0"), None);
    assert_eq!(parse_i32("xy"), None);
    assert_eq!(parse_i32("12a"), None);
    assert_eq!(parse_i32("--1"), None);
}

#[test]
fn parse_i32_range_limits() {
    assert_eq!(parse_i32("2147483647"), Some(i32::MAX));
    assert_eq!(parse_i32("2147483648"), None);
    assert_eq!(parse_i32("-2147483648"), Some(i32::MIN));
    assert_eq!(parse_i32("-2147483649"), None);
    assert_eq!(parse_i32("99999999999999999999"), None);
}
