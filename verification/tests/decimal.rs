use naga::decimal::{decimal_string, signed_decimal_string};

#[test]
fn decimal_of_zero_and_large_values() {
    assert_eq!(decimal_string(0), "0");
    assert_eq!(decimal_string(1234567890), "1234567890");
    assert_eq!(decimal_string(u64::MAX), "18446744073709551615");
}

#[test]
fn signed_decimal_has_minus_sign() {
    assert_eq!(signed_decimal_string(-42), "-42");
    assert_eq!(signed_decimal_string(7), "7");
    assert_eq!(signed_decimal_string(i64::MIN), "-9223372036854775808");
}
