use birthday_bot::date_text::{format_date, parse_date};
use birthday_bot::digits::{format_i64, format_u64, parse_i64_digits, parse_u64_digits, parse_u8_digits};
use birthday_bot::models::Date;

#[test]
fn parse_plain_date() {
    assert_eq!(parse_date("15.03"), Some(Date { day: 15, month: 3 }));
    assert_eq!(parse_date("1.1"), Some(Date { day: 1, month: 1 }));
    assert_eq!(parse_date("31.12"), Some(Date { day: 31, month: 12 }));
}

#[test]
fn parse_accepts_leap_day() {
    assert_eq!(parse_date("29.2"), Some(Date { day: 29, month: 2 }));
}

#[test]
fn parse_accepts_leading_zeros() {
    assert_eq!(parse_date("05.09"), Some(Date { day: 5, month: 9 }));
    assert_eq!(parse_date("0000000031.03"), Some(Date { day: 31, month: 3 }));
}

#[test]
fn parse_rejects_wrong_token_count() {
    assert_eq!(parse_date(""), None);
    assert_eq!(parse_date("15"), None);
    assert_eq!(parse_date("15.03.1990"), None);
    assert_eq!(parse_date("15..03"), None);
    assert_eq!(parse_date("."), None);
    assert_eq!(parse_date(".15"), None);
    assert_eq!(parse_date("15."), None);
}

#[test]
fn parse_rejects_non_numeric_tokens() {
    assert_eq!(parse_date("a.b"), None);
    assert_eq!(parse_date("1a.2"), None);
    assert_eq!(parse_date("+3.4"), None);
    assert_eq!(parse_date("-3.4"), None);
    assert_eq!(parse_date(" 15.03"), None);
    assert_eq!(parse_date("15 .03"), None);
}

#[test]
fn parse_rejects_out_of_range() {
    assert_eq!(parse_date("0.5"), None);
    assert_eq!(parse_date("5.0"), None);
    assert_eq!(parse_date("32.01"), None);
    assert_eq!(parse_date("15.13"), None);
    assert_eq!(parse_date("300.1"), None);
    assert_eq!(parse_date("18446744073709551617.1"), None);
}

#[test]
fn parse_rejects_impossible_dates() {
    assert_eq!(parse_date("31.02"), None);
    assert_eq!(parse_date("30.2"), None);
    assert_eq!(parse_date("31.4"), None);
    assert_eq!(parse_date("31.6"), None);
    assert_eq!(parse_date("31.9"), None);
    assert_eq!(parse_date("31.11"), None);
}

#[test]
fn format_then_parse_round_trips() {
    let d = Date { day: 7, month: 11 };
    let text = format_date(d);
    assert_eq!(text, "7.11");
    assert_eq!(parse_date(&text), Some(d));

    let parsed = parse_date("15.03").unwrap();
    let again = format_date(parsed);
    assert_eq!(again, "15.3");
    assert_eq!(parse_date(&again), Some(parsed));

    let leap = Date { day: 29, month: 2 };
    assert_eq!(parse_date(&format_date(leap)), Some(leap));
}

#[test]
fn unsigned_digit_parsing() {
    assert_eq!(parse_u64_digits("0"), Some(0));
    assert_eq!(parse_u64_digits("007"), Some(7));
    assert_eq!(parse_u64_digits("18446744073709551615"), Some(u64::MAX));
    assert_eq!(parse_u64_digits("18446744073709551616"), None);
    assert_eq!(parse_u64_digits(""), None);
    assert_eq!(parse_u64_digits("12x"), None);
    assert_eq!(parse_u8_digits("255"), Some(255));
    assert_eq!(parse_u8_digits("256"), None);
}

#[test]
fn signed_digit_parsing() {
    assert_eq!(parse_i64_digits("42"), Some(42));
    assert_eq!(parse_i64_digits("-42"), Some(-42));
    assert_eq!(parse_i64_digits("-0"), Some(0));
    assert_eq!(parse_i64_digits("-"), None);
    assert_eq!(parse_i64_digits("+42"), None);
    assert_eq!(parse_i64_digits("9223372036854775807"), Some(i64::MAX));
    assert_eq!(parse_i64_digits("9223372036854775808"), None);
    assert_eq!(parse_i64_digits("-9223372036854775808"), Some(i64::MIN));
    assert_eq!(parse_i64_digits("-9223372036854775809"), None);
}

#[test]
fn decimal_formatting() {
    assert_eq!(format_u64(0), "0");
    assert_eq!(format_u64(86500), "86500");
    assert_eq!(format_u64(u64::MAX), "18446744073709551615");
    assert_eq!(format_i64(0), "0");
    assert_eq!(format_i64(-1), "-1");
    assert_eq!(format_i64(i64::MIN), "-9223372036854775808");
    assert_eq!(format_i64(i64::MAX), "9223372036854775807");
}

#[test]
fn formatting_round_trips_through_parsing() {
    for v in [0i64, 1, -1, 42, -987654321, i64::MIN, i64::MAX] {
        assert_eq!(parse_i64_digits(&format_i64(v)), Some(v));
    }
    for v in [0u64, 9, 10, 86500, u64::MAX] {
        assert_eq!(parse_u64_digits(&format_u64(v)), Some(v));
    }
}
