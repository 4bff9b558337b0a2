use region_chart::number::{parse_count, parse_rate};
use region_chart::report::Decimal;

#[test]
fn count_decimal() {
    assert_eq!(parse_count("0"), Some(0));
    assert_eq!(parse_count("12345"), Some(12345));
    assert_eq!(parse_count("+17"), Some(17));
    assert_eq!(parse_count("18446744073709551615"), Some(u64::MAX));
}

#[test]
fn count_hexadecimal() {
    assert_eq!(parse_count("0x1A"), Some(26));
    assert_eq!(parse_count("0xff"), Some(255));
    assert_eq!(parse_count("0x"), None);
    assert_eq!(parse_count("0X1A"), None);
}

#[test]
fn count_rejected() {
    assert_eq!(parse_count(""), None);
    assert_eq!(parse_count("+"), None);
    assert_eq!(parse_count("-1"), None);
    assert_eq!(parse_count("1.0"), None);
    assert_eq!(parse_count(" 1"), None);
    assert_eq!(parse_count("18446744073709551616"), None);
}

#[test]
fn rate_forms() {
    assert_eq!(parse_rate("12.50"), Some(Decimal { mantissa: 1250, scale: 2 }));
    assert_eq!(parse_rate("3"), Some(Decimal { mantissa: 3, scale: 0 }));
    assert_eq!(parse_rate(".5"), Some(Decimal { mantissa: 5, scale: 1 }));
    assert_eq!(parse_rate("1."), Some(Decimal { mantissa: 1, scale: 0 }));
    assert_eq!(parse_rate("+2.0"), Some(Decimal { mantissa: 20, scale: 1 }));
}

#[test]
fn rate_rejected() {
    assert_eq!(parse_rate(""), None);
    assert_eq!(parse_rate("."), None);
    assert_eq!(parse_rate("1.2.3"), None);
    assert_eq!(parse_rate("-1.5"), None);
    assert_eq!(parse_rate("abc"), None);
    assert_eq!(parse_rate("99999999999999999999"), None);
}
