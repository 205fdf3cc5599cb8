//! IEEE-754 bit patterns of binary32 and binary64 values, and the ordered
//! comparisons on them.
use vstd::prelude::*;

verus! {

/// The sign bit of a binary32 value; alone, it is the pattern of `-0.0`.
pub const SIGN_BIT_32: u32 = 0x8000_0000;

/// Every bit of a binary32 value but its sign bit.
pub const MAGNITUDE_MASK_32: u32 = 0x7fff_ffff;

/// The pattern of binary32 `+infinity`: exponent all ones, fraction zero.
pub const INFINITY_32: u32 = 0x7f80_0000;

/// A binary32 comparison mask lane that holds true.
pub const TRUE_MASK_32: u32 = 0xffff_ffff;

/// The sign bit of a binary64 value; alone, it is the pattern of `-0.0`.
pub const SIGN_BIT_64: u64 = 0x8000_0000_0000_0000;

/// Every bit of a binary64 value but its sign bit.
pub const MAGNITUDE_MASK_64: u64 = 0x7fff_ffff_ffff_ffff;

/// The pattern of binary64 `+infinity`: exponent all ones, fraction zero.
pub const INFINITY_64: u64 = 0x7ff0_0000_0000_0000;

/// A binary64 comparison mask lane that holds true.
pub const TRUE_MASK_64: u64 = 0xffff_ffff_ffff_ffff;

/// A NaN: exponent all ones and a fraction that is not zero.
pub open spec fn is_nan_32(x: u32) -> bool {
    (x & MAGNITUDE_MASK_32) > INFINITY_32
}

/// Where a value that is not a NaN lies on the number line: its magnitude
/// bits, negated when the sign bit is set. Both zeros land on 0, and the
/// order of the keys is the order of the values.
pub open spec fn order_key_32(x: u32) -> int {
    let m = (x & MAGNITUDE_MASK_32) as int;
    if x & SIGN_BIT_32 == 0 {
        m
    } else {
        -m
    }
}

/// Ordered equality: false when either operand is a NaN.
pub open spec fn ordered_eq_32(a: u32, b: u32) -> bool {
    !is_nan_32(a) && !is_nan_32(b) && order_key_32(a) == order_key_32(b)
}

/// Ordered less-than: false when either operand is a NaN.
pub open spec fn ordered_lt_32(a: u32, b: u32) -> bool {
    !is_nan_32(a) && !is_nan_32(b) && order_key_32(a) < order_key_32(b)
}

/// Ordered greater-than: false when either operand is a NaN.
pub open spec fn ordered_gt_32(a: u32, b: u32) -> bool {
    ordered_lt_32(b, a)
}

/// The mask lane for a predicate: all ones when it holds, all zeros else.
pub open spec fn mask_32(p: bool) -> u32 {
    if p {
        TRUE_MASK_32
    } else {
        0
    }
}

/// A NaN: exponent all ones and a fraction that is not zero.
pub open spec fn is_nan_64(x: u64) -> bool {
    (x & MAGNITUDE_MASK_64) > INFINITY_64
}

/// Where a value that is not a NaN lies on the number line (see
/// `order_key_32`).
pub open spec fn order_key_64(x: u64) -> int {
    let m = (x & MAGNITUDE_MASK_64) as int;
    if x & SIGN_BIT_64 == 0 {
        m
    } else {
        -m
    }
}

/// Ordered equality: false when either operand is a NaN.
pub open spec fn ordered_eq_64(a: u64, b: u64) -> bool {
    !is_nan_64(a) && !is_nan_64(b) && order_key_64(a) == order_key_64(b)
}

/// Ordered less-than: false when either operand is a NaN.
pub open spec fn ordered_lt_64(a: u64, b: u64) -> bool {
    !is_nan_64(a) && !is_nan_64(b) && order_key_64(a) < order_key_64(b)
}

/// Ordered greater-than: false when either operand is a NaN.
pub open spec fn ordered_gt_64(a: u64, b: u64) -> bool {
    ordered_lt_64(b, a)
}

/// The mask lane for a predicate: all ones when it holds, all zeros else.
pub open spec fn mask_64(p: bool) -> u64 {
    if p {
        TRUE_MASK_64
    } else {
        0
    }
}

/// Whether the pattern is a binary32 NaN.
pub fn is_nan_bits_32(x: u32) -> (r: bool)
    ensures
        r == is_nan_32(x),
{
    (x & MAGNITUDE_MASK_32) > INFINITY_32
}

/// The order key of a binary32 pattern.
pub fn order_key_bits_32(x: u32) -> (r: i64)
    ensures
        r as int == order_key_32(x),
{
    let m = (x & MAGNITUDE_MASK_32) as i64;
    if x & SIGN_BIT_32 == 0 {
        m
    } else {
        -m
    }
}

/// Whether the pattern is a binary64 NaN.
pub fn is_nan_bits_64(x: u64) -> (r: bool)
    ensures
        r == is_nan_64(x),
{
    (x & MAGNITUDE_MASK_64) > INFINITY_64
}

/// The order key of a binary64 pattern.
pub fn order_key_bits_64(x: u64) -> (r: i128)
    ensures
        r as int == order_key_64(x),
{
    let m = (x & MAGNITUDE_MASK_64) as i128;
    if x & SIGN_BIT_64 == 0 {
        m
    } else {
        -m
    }
}

} // verus!
