use rompatcher::CheckedSignedDiff;
use rompatcher::checked_diff::{
    checked_signed_u128_diff, checked_signed_u16_diff, checked_signed_u32_diff,
    checked_signed_u64_diff, checked_signed_u8_diff,
};

#[test]
pub fn fn_is_const() {
    assert_eq!(checked_signed_u8_diff(0, 0), Some(0i8));
    assert_eq!(checked_signed_u16_diff(0, 0), Some(0i16));
    assert_eq!(checked_signed_u32_diff(0, 0), Some(0i32));
    assert_eq!(checked_signed_u64_diff(0, 0), Some(0i64));
    assert_eq!(checked_signed_u128_diff(0, 0), Some(0i128));
}

#[test]
pub fn trait_is_implemented() {
    assert_eq!(0u8.checked_signed_difference(1), Some(-1));
    assert_eq!(0u16.checked_signed_difference(1), Some(-1));
    assert_eq!(0u32.checked_signed_difference(1), Some(-1));
    assert_eq!(0u64.checked_signed_difference(1), Some(-1));
    assert_eq!(0u128.checked_signed_difference(1), Some(-1));
}

#[test]
pub fn max_positive_diff() {
    assert_eq!(
        (i32::MAX as u32).checked_signed_difference(0),
        Some(i32::MAX)
    );
}

#[test]
pub fn overflow() {
    assert_eq!((i32::MAX as u32 + 1).checked_signed_difference(0), None);
}

#[test]
pub fn max_negative_diff() {
    assert_eq!(
        0u32.checked_signed_difference(i32::MAX as u32 + 1),
        Some(i32::MIN)
    );
}

#[test]
pub fn underflow() {
    assert_eq!(0u32.checked_signed_difference(i32::MAX as u32 + 2), None);
}
