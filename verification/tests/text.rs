use download_relay::text::{push_decimal, to_decimal};

#[test]
fn decimal_of_zero_is_one_digit() {
    assert_eq!(to_decimal(0), "0");
}

#[test]
fn decimal_of_largest_ticket() {
    assert_eq!(to_decimal(u64::MAX), "18446744073709551615");
}

#[test]
fn decimal_has_no_leading_zero() {
    assert_eq!(to_decimal(7), "7");
    assert_eq!(to_decimal(9), "9");
    assert_eq!(to_decimal(10), "10");
    assert_eq!(to_decimal(42), "42");
    assert_eq!(to_decimal(100), "100");
    assert_eq!(to_decimal(1_234_567_890), "1234567890");
}

#[test]
fn push_decimal_appends_behind_what_is_there() {
    let mut out = String::from("id = ");
    push_decimal(&mut out, 305);
    assert_eq!(out, "id = 305");
    push_decimal(&mut out, 0);
    assert_eq!(out, "id = 3050");
}
