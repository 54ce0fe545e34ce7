use cats_crud::digits::parse_id;
use cats_crud::digits::u64_to_dec;

#[test]
fn parse_simple() {
    assert_eq!(parse_id("123"), Some(123));
    assert_eq!(parse_id("0"), Some(0));
    assert_eq!(parse_id("0012"), Some(12));
}

#[test]
fn parse_negative() {
    assert_eq!(parse_id("-42"), Some(-42));
    assert_eq!(parse_id("-0"), Some(0));
    assert_eq!(parse_id("-2147483648"), Some(-2147483648));
}

#[test]
fn parse_bounds() {
    assert_eq!(parse_id("2147483647"), Some(2147483647));
    assert_eq!(parse_id("2147483648"), None);
    assert_eq!(parse_id("-2147483649"), None);
    assert_eq!(parse_id("99999999999999999999"), None);
}

#[test]
fn parse_rejects_junk() {
    assert_eq!(parse_id(""), None);
    assert_eq!(parse_id("-"), None);
    assert_eq!(parse_id("12a"), None);
    assert_eq!(parse_id("a12"), None);
    assert_eq!(parse_id("+5"), None);
    assert_eq!(parse_id(" 5"), None);
    assert_eq!(parse_id("5 "), None);
    assert_eq!(parse_id("1-2"), None);
}

#[test]
fn render_decimal() {
    assert_eq!(u64_to_dec(0), "0");
    assert_eq!(u64_to_dec(7), "7");
    assert_eq!(u64_to_dec(10), "10");
    assert_eq!(u64_to_dec(305), "305");
    assert_eq!(u64_to_dec(18446744073709551615), "18446744073709551615");
}

#[test]
fn render_then_parse_round_trips() {
    assert_eq!(parse_id(&u64_to_dec(1)), Some(1));
    assert_eq!(parse_id(&u64_to_dec(250)), Some(250));
    assert_eq!(parse_id(&u64_to_dec(2147483647)), Some(2147483647));
}
