//! Checked signed differences of unsigned integers.
//!
//! `checked_signed_uN_diff(a, b)` computes `a - b` and checks that the result
//! fits into the signed integer type of the same width, returning `None` on
//! overflow. The trait [`CheckedSignedDiff`] offers the same operation as a
//! method.

use vstd::prelude::*;

verus! {

/// Computes `a - b`, or `None` if the difference does not fit in an `i8`.
pub fn checked_signed_u8_diff(a: u8, b: u8) -> (r: Option<i8>)
    ensures
        r == (if i8::MIN <= a - b <= i8::MAX {
            Some((a - b) as i8)
        } else {
            None::<i8>
        }),
{
    if a >= b {
        let d: u8 = a - b;
        if d <= i8::MAX as u8 {
            Some(d as i8)
        } else {
            None
        }
    } else {
        let d: u8 = b - a;
        if d <= i8::MAX as u8 {
            Some(-(d as i8))
        } else if d == (i8::MAX as u8) + 1 {
            Some(i8::MIN)
        } else {
            None
        }
    }
}

/// Computes `a - b`, or `None` if the difference does not fit in an `i16`.
pub fn checked_signed_u16_diff(a: u16, b: u16) -> (r: Option<i16>)
    ensures
        r == (if i16::MIN <= a - b <= i16::MAX {
            Some((a - b) as i16)
        } else {
            None::<i16>
        }),
{
    if a >= b {
        let d: u16 = a - b;
        if d <= i16::MAX as u16 {
            Some(d as i16)
        } else {
            None
        }
    } else {
        let d: u16 = b - a;
        if d <= i16::MAX as u16 {
            Some(-(d as i16))
        } else if d == (i16::MAX as u16) + 1 {
            Some(i16::MIN)
        } else {
            None
        }
    }
}

/// Computes `a - b`, or `None` if the difference does not fit in an `i32`.
pub fn checked_signed_u32_diff(a: u32, b: u32) -> (r: Option<i32>)
    ensures
        r == (if i32::MIN <= a - b <= i32::MAX {
            Some((a - b) as i32)
        } else {
            None::<i32>
        }),
{
    if a >= b {
        let d: u32 = a - b;
        if d <= i32::MAX as u32 {
            Some(d as i32)
        } else {
            None
        }
    } else {
        let d: u32 = b - a;
        if d <= i32::MAX as u32 {
            Some(-(d as i32))
        } else if d == (i32::MAX as u32) + 1 {
            Some(i32::MIN)
        } else {
            None
        }
    }
}

/// Computes `a - b`, or `None` if the difference does not fit in an `i64`.
pub fn checked_signed_u64_diff(a: u64, b: u64) -> (r: Option<i64>)
    ensures
        r == (if i64::MIN <= a - b <= i64::MAX {
            Some((a - b) as i64)
        } else {
            None::<i64>
        }),
{
    if a >= b {
        let d: u64 = a - b;
        if d <= i64::MAX as u64 {
            Some(d as i64)
        } else {
            None
        }
    } else {
        let d: u64 = b - a;
        if d <= i64::MAX as u64 {
            Some(-(d as i64))
        } else if d == (i64::MAX as u64) + 1 {
            Some(i64::MIN)
        } else {
            None
        }
    }
}

/// Computes `a - b`, or `None` if the difference does not fit in an `i128`.
pub fn checked_signed_u128_diff(a: u128, b: u128) -> (r: Option<i128>)
    ensures
        r == (if i128::MIN <= a - b <= i128::MAX {
            Some((a - b) as i128)
        } else {
            None::<i128>
        }),
{
    if a >= b {
        let d: u128 = a - b;
        if d <= i128::MAX as u128 {
            Some(d as i128)
        } else {
            None
        }
    } else {
        let d: u128 = b - a;
        if d <= i128::MAX as u128 {
            Some(-(d as i128))
        } else if d == (i128::MAX as u128) + 1 {
            Some(i128::MIN)
        } else {
            None
        }
    }
}

/// Unsigned integers that support a checked signed difference.
pub trait CheckedSignedDiff: Sized {
    /// The signed integer type that corresponds to `Self`.
    type Signed;

    /// Computes `self - rhs` and checks whether the result fits into
    /// [`Self::Signed`], returning `None` if overflow occurred.
    fn checked_signed_difference(self, rhs: Self) -> Option<Self::Signed>;
}

impl CheckedSignedDiff for u8 {
    type Signed = i8;

    fn checked_signed_difference(self, rhs: Self) -> (r: Option<i8>)
        ensures
            r == (if i8::MIN <= self - rhs <= i8::MAX {
                Some((self - rhs) as i8)
            } else {
                None::<i8>
            }),
    {
        checked_signed_u8_diff(self, rhs)
    }
}

impl CheckedSignedDiff for u16 {
    type Signed = i16;

    fn checked_signed_difference(self, rhs: Self) -> (r: Option<i16>)
        ensures
            r == (if i16::MIN <= self - rhs <= i16::MAX {
                Some((self - rhs) as i16)
            } else {
                None::<i16>
            }),
    {
        checked_signed_u16_diff(self, rhs)
    }
}

impl CheckedSignedDiff for u32 {
    type Signed = i32;

    fn checked_signed_difference(self, rhs: Self) -> (r: Option<i32>)
        ensures
            r == (if i32::MIN <= self - rhs <= i32::MAX {
                Some((self - rhs) as i32)
            } else {
                None::<i32>
            }),
    {
        checked_signed_u32_diff(self, rhs)
    }
}

impl CheckedSignedDiff for u64 {
    type Signed = i64;

    fn checked_signed_difference(self, rhs: Self) -> (r: Option<i64>)
        ensures
            r == (if i64::MIN <= self - rhs <= i64::MAX {
                Some((self - rhs) as i64)
            } else {
                None::<i64>
            }),
    {
        checked_signed_u64_diff(self, rhs)
    }
}

impl CheckedSignedDiff for u128 {
    type Signed = i128;

    fn checked_signed_difference(self, rhs: Self) -> (r: Option<i128>)
        ensures
            r == (if i128::MIN <= self - rhs <= i128::MAX {
                Some((self - rhs) as i128)
            } else {
                None::<i128>
            }),
    {
        checked_signed_u128_diff(self, rhs)
    }
}

} // verus!
