//! Decimal rendering: exact digit strings, including the edges.

use nrbt::numeral::{i32_string, u64_string};

#[test]
fn zero_renders_as_a_single_digit() {
    assert_eq!(u64_string(0), "0");
    assert_eq!(i32_string(0), "0");
}

#[test]
fn multi_digit_values_render_most_significant_first() {
    assert_eq!(u64_string(126), "126");
    assert_eq!(u64_string(1234567890123456789), "1234567890123456789");
    assert_eq!(u64_string(u64::MAX), "18446744073709551615");
}

#[test]
fn negative_values_carry_a_sign() {
    assert_eq!(i32_string(-7), "-7");
    assert_eq!(i32_string(i32::MIN), "-2147483648");
    assert_eq!(i32_string(i32::MAX), "2147483647");
}
