use market_feed::price::{parse_price, price_string, PRICE_LIMIT};
use market_feed::text::decimal_string;

#[test]
fn decimal_of_zero_and_large() {
    assert_eq!(decimal_string(0), "0");
    assert_eq!(decimal_string(7), "7");
    assert_eq!(decimal_string(1234567890), "1234567890");
    assert_eq!(decimal_string(u64::MAX), "18446744073709551615");
}

#[test]
fn price_with_two_decimals() {
    assert_eq!(price_string(0), "0.00");
    assert_eq!(price_string(5), "0.05");
    assert_eq!(price_string(10500), "105.00");
    assert_eq!(price_string(204317), "2043.17");
}

#[test]
fn parse_plain_integers() {
    assert_eq!(parse_price("0"), Some(0));
    assert_eq!(parse_price("100"), Some(10000));
    assert_eq!(parse_price("2043"), Some(204300));
}

#[test]
fn parse_decimals_cuts_after_two() {
    assert_eq!(parse_price("100.5"), Some(10050));
    assert_eq!(parse_price("100.0"), Some(10000));
    assert_eq!(parse_price("2043.17"), Some(204317));
    assert_eq!(parse_price("2043.179"), Some(204317));
    assert_eq!(parse_price("0.01"), Some(1));
}

#[test]
fn parse_rejects_other_text() {
    assert_eq!(parse_price(""), None);
    assert_eq!(parse_price("-1"), None);
    assert_eq!(parse_price("1e5"), None);
    assert_eq!(parse_price(".5"), None);
    assert_eq!(parse_price("5."), None);
    assert_eq!(parse_price("1.2.3"), None);
    assert_eq!(parse_price("abc"), None);
}

#[test]
fn parse_respects_the_limit() {
    assert_eq!(parse_price("10000000000000"), Some(PRICE_LIMIT));
    assert_eq!(parse_price("10000000000000.01"), None);
    assert_eq!(parse_price("10000000000001"), None);
    assert_eq!(parse_price("99999999999999999999999"), None);
}
