//! The single-element backends: lane width one, every operation on one bit
//! pattern. They are the reference that the wide backends are stated against
//! and the last step of every fallback chain.
use vstd::prelude::*;

use crate::ieee::{
    is_nan_bits_32, is_nan_bits_64, mask_32, mask_64, order_key_bits_32, order_key_bits_64,
    ordered_eq_32, ordered_eq_64, ordered_gt_32, ordered_gt_64, ordered_lt_32, ordered_lt_64,
    MAGNITUDE_MASK_32, MAGNITUDE_MASK_64, SIGN_BIT_32, SIGN_BIT_64, TRUE_MASK_32, TRUE_MASK_64,
};

verus! {

/// The binary32 backend of lane width one.
pub struct ScalarVector32;

/// The binary64 backend of lane width one.
pub struct ScalarVector64;

impl ScalarVector32 {
    /// Clears the sign bit.
    pub fn abs(a: u32) -> (r: u32)
        ensures
            r == a & MAGNITUDE_MASK_32,
    {
        a & MAGNITUDE_MASK_32
    }

    /// Flips the sign bit.
    pub fn neg(a: u32) -> (r: u32)
        ensures
            r == a ^ SIGN_BIT_32,
    {
        a ^ SIGN_BIT_32
    }

    /// Takes each bit from `b` where `mask` has it set, from `c` elsewhere.
    pub fn bitwise_select(mask: u32, b: u32, c: u32) -> (r: u32)
        ensures
            r == (mask & b) | (!mask & c),
    {
        (mask & b) | (!mask & c)
    }

    /// The sign bit of `sign_src` with the magnitude bits of `dest`.
    pub fn copy_sign(sign_src: u32, dest: u32) -> (r: u32)
        ensures
            r == (sign_src & SIGN_BIT_32) | (dest & MAGNITUDE_MASK_32),
    {
        let r = Self::bitwise_select(SIGN_BIT_32, sign_src, dest);
        assert(r == (sign_src & SIGN_BIT_32) | (dest & MAGNITUDE_MASK_32)) by (bit_vector)
            requires
                r == (0x8000_0000u32 & sign_src) | (!0x8000_0000u32 & dest),
        ;
        r
    }

    /// Ordered equality as a mask.
    pub fn eq(a: u32, b: u32) -> (r: u32)
        ensures
            r == mask_32(ordered_eq_32(a, b)),
    {
        if !is_nan_bits_32(a) && !is_nan_bits_32(b) && order_key_bits_32(a) == order_key_bits_32(
            b,
        ) {
            TRUE_MASK_32
        } else {
            0
        }
    }

    /// Ordered less-than as a mask.
    pub fn lt(a: u32, b: u32) -> (r: u32)
        ensures
            r == mask_32(ordered_lt_32(a, b)),
    {
        if !is_nan_bits_32(a) && !is_nan_bits_32(b) && order_key_bits_32(a) < order_key_bits_32(
            b,
        ) {
            TRUE_MASK_32
        } else {
            0
        }
    }

    /// Ordered greater-than as a mask.
    pub fn gt(a: u32, b: u32) -> (r: u32)
        ensures
            r == mask_32(ordered_gt_32(a, b)),
    {
        Self::lt(b, a)
    }

    /// `a` where it is greater than `b` (ordered), else `b`: the second
    /// operand comes back when either is a NaN or both are zeros.
    pub fn vmax(a: u32, b: u32) -> (r: u32)
        ensures
            r == if ordered_gt_32(a, b) { a } else { b },
    {
        if Self::gt(a, b) == TRUE_MASK_32 {
            a
        } else {
            b
        }
    }

    /// `a` where it is less than `b` (ordered), else `b`: the second
    /// operand comes back when either is a NaN or both are zeros.
    pub fn vmin(a: u32, b: u32) -> (r: u32)
        ensures
            r == if ordered_lt_32(a, b) { a } else { b },
    {
        if Self::lt(a, b) == TRUE_MASK_32 {
            a
        } else {
            b
        }
    }

    /// Replaces each element of `a` from `start` on by what `f` returns for
    /// it, left to right.
    pub fn apply_elementwise_from(f: &impl Fn(u32) -> u32, a: &mut [u32], start: usize)
        requires
            start <= old(a)@.len(),
            forall|x: u32| f.requires((x,)),
        ensures
            final(a)@.len() == old(a)@.len(),
            forall|i: int| 0 <= i < start ==> final(a)@[i] == old(a)@[i],
            forall|i: int|
                start <= i < old(a)@.len() ==> f.ensures((old(a)@[i],), #[trigger] final(a)@[i]),
    {
        let mut i: usize = start;
        while i < a.len()
            invariant
                start <= i <= a@.len(),
                a@.len() == old(a)@.len(),
                forall|x: u32| f.requires((x,)),
                forall|j: int| 0 <= j < start ==> a@[j] == old(a)@[j],
                forall|j: int| i <= j < a@.len() ==> a@[j] == old(a)@[j],
                forall|j: int| start <= j < i ==> f.ensures((old(a)@[j],), #[trigger] a@[j]),
            decreases a@.len() - i,
        {
            let v = f(a[i]);
            a[i] = v;
            i = i + 1;
        }
    }

    /// Replaces each element of `a` by what `f` returns for it.
    pub fn apply_elementwise(f: &impl Fn(u32) -> u32, a: &mut [u32])
        requires
            forall|x: u32| f.requires((x,)),
        ensures
            final(a)@.len() == old(a)@.len(),
            forall|i: int| 0 <= i < old(a)@.len() ==> f.ensures((old(a)@[i],), #[trigger] final(a)@[i]),
    {
        Self::apply_elementwise_from(f, a, 0);
    }
}

impl ScalarVector64 {
    /// Clears the sign bit.
    pub fn abs(a: u64) -> (r: u64)
        ensures
            r == a & MAGNITUDE_MASK_64,
    {
        a & MAGNITUDE_MASK_64
    }

    /// Flips the sign bit.
    pub fn neg(a: u64) -> (r: u64)
        ensures
            r == a ^ SIGN_BIT_64,
    {
        a ^ SIGN_BIT_64
    }

    /// Takes each bit from `b` where `mask` has it set, from `c` elsewhere.
    pub fn bitwise_select(mask: u64, b: u64, c: u64) -> (r: u64)
        ensures
            r == (mask & b) | (!mask & c),
    {
        (mask & b) | (!mask & c)
    }

    /// The sign bit of `sign_src` with the magnitude bits of `dest`.
    pub fn copy_sign(sign_src: u64, dest: u64) -> (r: u64)
        ensures
            r == (sign_src & SIGN_BIT_64) | (dest & MAGNITUDE_MASK_64),
    {
        let r = Self::bitwise_select(SIGN_BIT_64, sign_src, dest);
        assert(r == (sign_src & SIGN_BIT_64) | (dest & MAGNITUDE_MASK_64)) by (bit_vector)
            requires
                r == (0x8000_0000_0000_0000u64 & sign_src) | (!0x8000_0000_0000_0000u64 & dest),
        ;
        r
    }

    /// Ordered equality as a mask.
    pub fn eq(a: u64, b: u64) -> (r: u64)
        ensures
            r == mask_64(ordered_eq_64(a, b)),
    {
        if !is_nan_bits_64(a) && !is_nan_bits_64(b) && order_key_bits_64(a) == order_key_bits_64(
            b,
        ) {
            TRUE_MASK_64
        } else {
            0
        }
    }

    /// Ordered less-than as a mask.
    pub fn lt(a: u64, b: u64) -> (r: u64)
        ensures
            r == mask_64(ordered_lt_64(a, b)),
    {
        if !is_nan_bits_64(a) && !is_nan_bits_64(b) && order_key_bits_64(a) < order_key_bits_64(
            b,
        ) {
            TRUE_MASK_64
        } else {
            0
        }
    }

    /// Ordered greater-than as a mask.
    pub fn gt(a: u64, b: u64) -> (r: u64)
        ensures
            r == mask_64(ordered_gt_64(a, b)),
    {
        Self::lt(b, a)
    }

    /// `a` where it is greater than `b` (ordered), else `b`: the second
    /// operand comes back when either is a NaN or both are zeros.
    pub fn vmax(a: u64, b: u64) -> (r: u64)
        ensures
            r == if ordered_gt_64(a, b) { a } else { b },
    {
        if Self::gt(a, b) == TRUE_MASK_64 {
            a
        } else {
            b
        }
    }

    /// `a` where it is less than `b` (ordered), else `b`: the second
    /// operand comes back when either is a NaN or both are zeros.
    pub fn vmin(a: u64, b: u64) -> (r: u64)
        ensures
            r == if ordered_lt_64(a, b) { a } else { b },
    {
        if Self::lt(a, b) == TRUE_MASK_64 {
            a
        } else {
            b
        }
    }

    /// Replaces each element of `a` from `start` on by what `f` returns for
    /// it, left to right.
    pub fn apply_elementwise_from(f: &impl Fn(u64) -> u64, a: &mut [u64], start: usize)
        requires
            start <= old(a)@.len(),
            forall|x: u64| f.requires((x,)),
        ensures
            final(a)@.len() == old(a)@.len(),
            forall|i: int| 0 <= i < start ==> final(a)@[i] == old(a)@[i],
            forall|i: int|
                start <= i < old(a)@.len() ==> f.ensures((old(a)@[i],), #[trigger] final(a)@[i]),
    {
        let mut i: usize = start;
        while i < a.len()
            invariant
                start <= i <= a@.len(),
                a@.len() == old(a)@.len(),
                forall|x: u64| f.requires((x,)),
                forall|j: int| 0 <= j < start ==> a@[j] == old(a)@[j],
                forall|j: int| i <= j < a@.len() ==> a@[j] == old(a)@[j],
                forall|j: int| start <= j < i ==> f.ensures((old(a)@[j],), #[trigger] a@[j]),
            decreases a@.len() - i,
        {
            let v = f(a[i]);
            a[i] = v;
            i = i + 1;
        }
    }

    /// Replaces each element of `a` by what `f` returns for it.
    pub fn apply_elementwise(f: &impl Fn(u64) -> u64, a: &mut [u64])
        requires
            forall|x: u64| f.requires((x,)),
        ensures
            final(a)@.len() == old(a)@.len(),
            forall|i: int| 0 <= i < old(a)@.len() ==> f.ensures((old(a)@[i],), #[trigger] final(a)@[i]),
    {
        Self::apply_elementwise_from(f, a, 0);
    }
}

} // verus!
