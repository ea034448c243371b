use analytics::digits::{dec_to_string, digit_of, i64_to_string, parse_dec};
use analytics::scan::{contains_char, ends_with_str, find_in, rfind_in, str_eq};
use analytics::Error;

#[test]
fn decimal_rendering() {
    assert_eq!(dec_to_string(0), "0");
    assert_eq!(dec_to_string(7), "7");
    assert_eq!(dec_to_string(10), "10");
    assert_eq!(dec_to_string(12345), "12345");
    assert_eq!(dec_to_string(u64::MAX), "18446744073709551615");
}

#[test]
fn signed_rendering() {
    assert_eq!(i64_to_string(0), "0");
    assert_eq!(i64_to_string(42), "42");
    assert_eq!(i64_to_string(-5), "-5");
    assert_eq!(i64_to_string(i64::MIN), "-9223372036854775808");
    assert_eq!(i64_to_string(i64::MAX), "9223372036854775807");
}

#[test]
fn decimal_parsing() {
    assert_eq!(parse_dec("0"), Ok(0));
    assert_eq!(parse_dec("004"), Ok(4));
    assert_eq!(parse_dec("12345"), Ok(12345));
    assert_eq!(parse_dec("18446744073709551615"), Ok(u64::MAX));
    assert_eq!(parse_dec(""), Err(Error::NonNumericSegment));
    assert_eq!(parse_dec("12x"), Err(Error::NonNumericSegment));
    assert_eq!(parse_dec("-1"), Err(Error::NonNumericSegment));
    assert_eq!(parse_dec("18446744073709551616"), Err(Error::Overflow));
}

#[test]
fn digit_classification() {
    assert_eq!(digit_of('0'), Some(0));
    assert_eq!(digit_of('9'), Some(9));
    assert_eq!(digit_of('x'), None);
    assert_eq!(digit_of('.'), None);
}

#[test]
fn scanning_helpers() {
    assert_eq!(rfind_in("T1H2M3.004", &['.', 'M', 'H', 'T']), Some(6));
    assert_eq!(rfind_in("123", &['.', 'M', 'H', 'T']), None);
    assert_eq!(find_in("a?b?c", '?'), Some(1));
    assert_eq!(find_in("abc", '?'), None);
    assert!(contains_char(&['H', 'T'], 'T'));
    assert!(!contains_char(&['H', 'T'], 'M'));
    assert!(ends_with_str("page/index.html", "/index.html"));
    assert!(!ends_with_str("page/index.htm", "/index.html"));
    assert!(ends_with_str("abc", ""));
    assert!(str_eq("day", "day"));
    assert!(!str_eq("day", "days"));
}
