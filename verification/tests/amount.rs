use tr_engine::amount::{format_amount, parse, parse_amount, push_decimal};

#[test]
fn parse_pads_the_fraction() {
    assert_eq!(parse("12"), 120000);
    assert_eq!(parse("12.5"), 125000);
    assert_eq!(parse("12.3456"), 123456);
    assert_eq!(parse("0.0001"), 1);
    assert_eq!(parse("5.0"), 50000);
    assert_eq!(parse("0"), 0);
}

#[test]
fn parse_drops_digits_beyond_the_fourth() {
    assert_eq!(parse("1.23456"), 12345);
    assert_eq!(parse("1.99999999"), 19999);
}

#[test]
fn parse_without_whole_or_fraction() {
    assert_eq!(parse(".5"), 5000);
    assert_eq!(parse("5."), 50000);
    assert_eq!(parse("."), 0);
    assert_eq!(parse(""), 0);
}

#[test]
fn parse_takes_a_sign() {
    assert_eq!(parse("-1.5"), -15000);
    assert_eq!(parse("+1.5"), 15000);
    assert_eq!(parse("-0"), 0);
}

#[test]
fn parse_of_unreadable_text_is_zero() {
    assert_eq!(parse("abc"), 0);
    assert_eq!(parse("1e5"), 0);
    assert_eq!(parse("1,5"), 0);
    assert_eq!(parse(" 1"), 0);
    assert_eq!(parse("--1"), 0);
    assert_eq!(parse("-"), 0);
    assert_eq!(parse("1.2x"), 0);
    assert_eq!(parse("\u{661}"), 0);
}

#[test]
fn parse_reads_only_what_stands_before_the_cut() {
    assert_eq!(parse("1.2345x"), 12345);
    assert_eq!(parse("1.2345\u{e9}"), 12345);
    assert_eq!(parse("1.\u{e9}2345"), 0);
    assert_eq!(parse("1.2.3"), 1230);
}

#[test]
fn parse_at_the_ends_of_the_range() {
    assert_eq!(parse("922337203685477.5807"), i64::MAX);
    assert_eq!(parse("-922337203685477.5808"), i64::MIN);
    assert_eq!(parse("922337203685477.5808"), 0);
    assert_eq!(parse("-922337203685477.5809"), 0);
    assert_eq!(parse("99999999999999999999999999"), 0);
    assert_eq!(parse("000000000000000000000000000001"), 10000);
}

#[test]
fn parse_amount_tells_absent_from_zero() {
    assert_eq!(parse_amount(None), None);
    assert_eq!(parse_amount(Some("0")), Some(0));
    assert_eq!(parse_amount(Some("")), Some(0));
    assert_eq!(parse_amount(Some("2.5")), Some(25000));
}

#[test]
fn format_always_has_four_fractional_digits() {
    assert_eq!(format_amount(0), "0.0000");
    assert_eq!(format_amount(1), "0.0001");
    assert_eq!(format_amount(9999), "0.9999");
    assert_eq!(format_amount(10000), "1.0000");
    assert_eq!(format_amount(123456), "12.3456");
    assert_eq!(format_amount(1200300), "120.0300");
    assert_eq!(format_amount(1234567890123450001), "123456789012345.0001");
}

#[test]
fn format_puts_the_sign_once_in_front() {
    assert_eq!(format_amount(-15000), "-1.5000");
    assert_eq!(format_amount(-1), "-0.0001");
    assert_eq!(format_amount(-3000), "-0.3000");
    assert_eq!(format_amount(-1230000), "-123.0000");
}

#[test]
fn format_at_the_ends_of_the_range() {
    assert_eq!(format_amount(i64::MAX), "922337203685477.5807");
    assert_eq!(format_amount(i64::MIN), "-922337203685477.5808");
}

#[test]
fn format_of_parse_is_the_canonical_text() {
    let cases = [
        ("12", "12.0000"),
        ("12.5", "12.5000"),
        ("12.3456", "12.3456"),
        ("-1.5", "-1.5000"),
        ("0.05", "0.0500"),
        ("007.5", "7.5000"),
        ("-0.0", "0.0000"),
        ("3.", "3.0000"),
    ];
    for (text, canonical) in cases {
        assert_eq!(format_amount(parse(text)), canonical, "text {}", text);
    }
}

#[test]
fn parse_of_format_is_the_amount() {
    for money in [0, 1, -1, 9999, 10000, -15000, 123456789, i64::MAX, i64::MIN] {
        assert_eq!(parse(&format_amount(money)), money);
    }
}

#[test]
fn push_decimal_appends_the_digits() {
    let mut text = String::from("n=");
    push_decimal(&mut text, 0);
    push_decimal(&mut text, 7);
    push_decimal(&mut text, 10);
    push_decimal(&mut text, 65535);
    push_decimal(&mut text, u64::MAX);
    assert_eq!(text, "n=07106553518446744073709551615");
}
