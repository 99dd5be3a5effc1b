use helldivers::numbers::i64_to_dec_string;
use helldivers::numbers::parse_i64;
use helldivers::numbers::u64_to_dec_string;

#[test]
fn parse_plain_digits() {
    assert_eq!(parse_i64("801"), Some(801));
    assert_eq!(parse_i64("0"), Some(0));
    assert_eq!(parse_i64("007"), Some(7));
}

#[test]
fn parse_signed() {
    assert_eq!(parse_i64("-42"), Some(-42));
    assert_eq!(parse_i64("+7"), Some(7));
    assert_eq!(parse_i64("-0"), Some(0));
}

#[test]
fn parse_rejects_garbage() {
    assert_eq!(parse_i64(""), None);
    assert_eq!(parse_i64("-"), None);
    assert_eq!(parse_i64("+"), None);
    assert_eq!(parse_i64("12a"), None);
    assert_eq!(parse_i64(" 12"), None);
    assert_eq!(parse_i64("1 2"), None);
    assert_eq!(parse_i64("--1"), None);
}

#[test]
fn parse_at_the_edges_of_i64() {
    assert_eq!(parse_i64("9223372036854775807"), Some(i64::MAX));
    assert_eq!(parse_i64("9223372036854775808"), None);
    assert_eq!(parse_i64("-9223372036854775808"), Some(i64::MIN));
    assert_eq!(parse_i64("-9223372036854775809"), None);
    assert_eq!(parse_i64("99999999999999999999999999"), None);
}

#[test]
fn render_unsigned() {
    assert_eq!(u64_to_dec_string(0), "0");
    assert_eq!(u64_to_dec_string(801), "801");
    assert_eq!(u64_to_dec_string(u64::MAX), "18446744073709551615");
}

#[test]
fn render_signed() {
    assert_eq!(i64_to_dec_string(801), "801");
    assert_eq!(i64_to_dec_string(-5), "-5");
    assert_eq!(i64_to_dec_string(0), "0");
    assert_eq!(i64_to_dec_string(i64::MIN), "-9223372036854775808");
    assert_eq!(i64_to_dec_string(i64::MAX), "9223372036854775807");
}

#[test]
fn render_then_parse_round_trips() {
    for v in [0i64, 1, -1, 801, -801, i64::MIN, i64::MAX] {
        assert_eq!(parse_i64(&i64_to_dec_string(v)), Some(v));
    }
}
