//! The 256-bit backends: eight binary32 lanes or four binary64 lanes per
//! register, each lane stated against the single-element backend of its width.
use vstd::prelude::*;

use aligned::{Aligned, A32};

use crate::aligned_lanes::{align_lanes_32, align_lanes_64, aligned_lanes_32, aligned_lanes_64};
use crate::ieee::{
    mask_32, mask_64, ordered_eq_32, ordered_eq_64, ordered_gt_32, ordered_gt_64, ordered_lt_32,
    ordered_lt_64, MAGNITUDE_MASK_32, MAGNITUDE_MASK_64, SIGN_BIT_32, SIGN_BIT_64, TRUE_MASK_32,
    TRUE_MASK_64,
};
use crate::scalar::{ScalarVector32, ScalarVector64};

verus! {

/// Lane count of a 256-bit register of binary32 values.
pub const LANES_32: usize = 8;

/// A 256-bit register of eight binary32 values, as bit patterns.
#[derive(Clone, Copy, Debug)]
pub struct F32x8 {
    pub bits: [u32; 8],
}

/// A 256-bit register of eight signed 32-bit integers.
#[derive(Clone, Copy, Debug)]
pub struct I32x8 {
    pub ints: [i32; 8],
}

/// A 256-bit selection mask over eight binary32 lanes.
#[derive(Clone, Copy, Debug)]
pub struct M32x8 {
    pub bits: [u32; 8],
}

impl M32x8 {
    /// Every lane is all ones or all zeros.
    pub open spec fn wf(&self) -> bool {
        forall|i: int| 0 <= i < 8 ==> self.bits[i] == 0 || self.bits[i] == TRUE_MASK_32
    }

    /// The mask whose every lane holds `b`.
    pub fn uniform(b: bool) -> (r: M32x8)
        ensures
            r.wf(),
            forall|i: int| 0 <= i < 8 ==> r.bits[i] == mask_32(b),
    {
        let v: u32 = if b {
            TRUE_MASK_32
        } else {
            0
        };
        M32x8 { bits: [v; 8] }
    }
}

/// The `c`-th run of eight values of `s`.
pub open spec fn chunk_32(s: Seq<u32>, c: int) -> Seq<u32> {
    s.subrange(8 * c, 8 * c + 8)
}

/// `after` holds the lanes of a register that `f` may return for the
/// register whose lanes `before` holds.
pub open spec fn lane_applied_32<F: Fn(F32x8) -> F32x8>(
    f: F,
    before: Seq<u32>,
    after: Seq<u32>,
) -> bool {
    exists|l: F32x8, r: F32x8| l.bits@ == before && f.ensures((l,), r) && r.bits@ == after
}

/// The binary32 backend on 256-bit registers; its remainder goes to
/// `ScalarVector32`.
#[derive(Default)]
pub struct AVXVector32;

impl AVXVector32 {
    /// Every lane holds `v`.
    pub fn splat(v: u32) -> (r: F32x8)
        ensures
            forall|i: int| 0 <= i < 8 ==> r.bits[i] == v,
    {
        F32x8 { bits: [v; 8] }
    }

    /// Clears the sign bit of every lane.
    pub fn abs(a: F32x8) -> (r: F32x8)
        ensures
            forall|i: int| 0 <= i < 8 ==> r.bits[i] == a.bits[i] & MAGNITUDE_MASK_32,
    {
        let mut r = a;
        let mut i: usize = 0;
        while i < LANES_32
            invariant
                i <= 8,
                forall|j: int| 0 <= j < i ==> r.bits[j] == a.bits[j] & MAGNITUDE_MASK_32,
            decreases 8 - i,
        {
            r.bits[i] = ScalarVector32::abs(a.bits[i]);
            i = i + 1;
        }
        r
    }

    /// Flips the sign bit of every lane.
    pub fn neg(a: F32x8) -> (r: F32x8)
        ensures
            forall|i: int| 0 <= i < 8 ==> r.bits[i] == a.bits[i] ^ SIGN_BIT_32,
    {
        let mut r = a;
        let mut i: usize = 0;
        while i < LANES_32
            invariant
                i <= 8,
                forall|j: int| 0 <= j < i ==> r.bits[j] == a.bits[j] ^ SIGN_BIT_32,
            decreases 8 - i,
        {
            r.bits[i] = ScalarVector32::neg(a.bits[i]);
            i = i + 1;
        }
        r
    }

    /// Per bit, `a` where `mask` is set and `b` where it is clear.
    pub fn bitwise_select(mask: M32x8, a: F32x8, b: F32x8) -> (r: F32x8)
        ensures
            forall|i: int|
                0 <= i < 8 ==> r.bits[i] == (mask.bits[i] & a.bits[i]) | (!mask.bits[i]
                    & b.bits[i]),
    {
        let mut r = a;
        let mut i: usize = 0;
        while i < LANES_32
            invariant
                i <= 8,
                forall|j: int|
                    0 <= j < i ==> r.bits[j] == (mask.bits[j] & a.bits[j]) | (!mask.bits[j]
                        & b.bits[j]),
            decreases 8 - i,
        {
            r.bits[i] = ScalarVector32::bitwise_select(mask.bits[i], a.bits[i], b.bits[i]);
            i = i + 1;
        }
        r
    }

    /// The sign bit of each lane of `sign_src` with the magnitude bits of the
    /// same lane of `dest`.
    pub fn copy_sign(sign_src: F32x8, dest: F32x8) -> (r: F32x8)
        ensures
            forall|i: int|
                0 <= i < 8 ==> r.bits[i] == (sign_src.bits[i] & SIGN_BIT_32) | (dest.bits[i]
                    & MAGNITUDE_MASK_32),
    {
        // The pattern of -0.0 isolates the sign bit.
        let sign_bit_mask = M32x8 { bits: [SIGN_BIT_32; 8] };
        let r = Self::bitwise_select(sign_bit_mask, sign_src, dest);
        assert forall|i: int| 0 <= i < 8 implies r.bits[i] == (sign_src.bits[i] & SIGN_BIT_32) | (
        dest.bits[i] & MAGNITUDE_MASK_32) by {
            let (s, d, x) = (sign_src.bits[i], dest.bits[i], r.bits[i]);
            assert(x == (s & 0x8000_0000u32) | (d & 0x7fff_ffffu32)) by (bit_vector)
                requires
                    x == (0x8000_0000u32 & s) | (!0x8000_0000u32 & d),
            ;
        }
        r
    }

    /// Ordered equality of each pair of lanes.
    pub fn eq(a: F32x8, b: F32x8) -> (r: M32x8)
        ensures
            r.wf(),
            forall|i: int| 0 <= i < 8 ==> r.bits[i] == mask_32(ordered_eq_32(a.bits[i], b.bits[i])),
    {
        let mut r = M32x8 { bits: [0u32; 8] };
        let mut i: usize = 0;
        while i < LANES_32
            invariant
                i <= 8,
                forall|j: int|
                    0 <= j < i ==> r.bits[j] == mask_32(ordered_eq_32(a.bits[j], b.bits[j])),
            decreases 8 - i,
        {
            r.bits[i] = ScalarVector32::eq(a.bits[i], b.bits[i]);
            i = i + 1;
        }
        r
    }

    /// Ordered greater-than of each pair of lanes.
    pub fn gt(a: F32x8, b: F32x8) -> (r: M32x8)
        ensures
            r.wf(),
            forall|i: int| 0 <= i < 8 ==> r.bits[i] == mask_32(ordered_gt_32(a.bits[i], b.bits[i])),
    {
        let mut r = M32x8 { bits: [0u32; 8] };
        let mut i: usize = 0;
        while i < LANES_32
            invariant
                i <= 8,
                forall|j: int|
                    0 <= j < i ==> r.bits[j] == mask_32(ordered_gt_32(a.bits[j], b.bits[j])),
            decreases 8 - i,
        {
            r.bits[i] = ScalarVector32::gt(a.bits[i], b.bits[i]);
            i = i + 1;
        }
        r
    }

    /// Ordered less-than of each pair of lanes.
    pub fn lt(a: F32x8, b: F32x8) -> (r: M32x8)
        ensures
            r.wf(),
            forall|i: int| 0 <= i < 8 ==> r.bits[i] == mask_32(ordered_lt_32(a.bits[i], b.bits[i])),
    {
        let mut r = M32x8 { bits: [0u32; 8] };
        let mut i: usize = 0;
        while i < LANES_32
            invariant
                i <= 8,
                forall|j: int|
                    0 <= j < i ==> r.bits[j] == mask_32(ordered_lt_32(a.bits[j], b.bits[j])),
            decreases 8 - i,
        {
            r.bits[i] = ScalarVector32::lt(a.bits[i], b.bits[i]);
            i = i + 1;
        }
        r
    }

    /// Lane by lane, `a` where it is greater than `b` (ordered), else `b`.
    pub fn vmax(a: F32x8, b: F32x8) -> (r: F32x8)
        ensures
            forall|i: int|
                0 <= i < 8 ==> r.bits[i] == if ordered_gt_32(a.bits[i], b.bits[i]) {
                    a.bits[i]
                } else {
                    b.bits[i]
                },
    {
        let mut r = a;
        let mut i: usize = 0;
        while i < LANES_32
            invariant
                i <= 8,
                forall|j: int|
                    0 <= j < i ==> r.bits[j] == if ordered_gt_32(a.bits[j], b.bits[j]) {
                        a.bits[j]
                    } else {
                        b.bits[j]
                    },
            decreases 8 - i,
        {
            r.bits[i] = ScalarVector32::vmax(a.bits[i], b.bits[i]);
            i = i + 1;
        }
        r
    }

    /// Lane by lane, `a` where it is less than `b` (ordered), else `b`.
    pub fn vmin(a: F32x8, b: F32x8) -> (r: F32x8)
        ensures
            forall|i: int|
                0 <= i < 8 ==> r.bits[i] == if ordered_lt_32(a.bits[i], b.bits[i]) {
                    a.bits[i]
                } else {
                    b.bits[i]
                },
    {
        let mut r = a;
        let mut i: usize = 0;
        while i < LANES_32
            invariant
                i <= 8,
                forall|j: int|
                    0 <= j < i ==> r.bits[j] == if ordered_lt_32(a.bits[j], b.bits[j]) {
                        a.bits[j]
                    } else {
                        b.bits[j]
                    },
            decreases 8 - i,
        {
            r.bits[i] = ScalarVector32::vmin(a.bits[i], b.bits[i]);
            i = i + 1;
        }
        r
    }

    /// The integer lanes read as binary32 patterns, bit for bit.
    pub fn reinterpret_float_signed(v: I32x8) -> (r: F32x8)
        ensures
            forall|i: int| 0 <= i < 8 ==> r.bits[i] == v.ints[i] as u32,
    {
        let mut r = F32x8 { bits: [0u32; 8] };
        let mut i: usize = 0;
        while i < LANES_32
            invariant
                i <= 8,
                forall|j: int| 0 <= j < i ==> r.bits[j] == v.ints[j] as u32,
            decreases 8 - i,
        {
            r.bits[i] = v.ints[i] as u32;
            i = i + 1;
        }
        r
    }

    /// Loads the eight values at `start`, replaces them by what `f` returns
    /// for that register, and leaves the rest of `a` as it was.
    fn load_apply_store_at(f: &impl Fn(F32x8) -> F32x8, a: &mut [u32], start: usize)
        requires
            start + 8 <= old(a)@.len(),
            forall|l: F32x8| f.requires((l,)),
        ensures
            final(a)@.len() == old(a)@.len(),
            forall|i: int|
                0 <= i < old(a)@.len() && !(start <= i < start + 8) ==> final(a)@[i] == old(a)@[i],
            lane_applied_32(
                *f,
                old(a)@.subrange(start as int, start + 8),
                final(a)@.subrange(start as int, start + 8),
            ),
    {
        let mut l = F32x8 { bits: [0u32; 8] };
        let mut i: usize = 0;
        while i < LANES_32
            invariant
                i <= 8,
                start + 8 <= a@.len(),
                forall|j: int| 0 <= j < i ==> l.bits[j] == a@[start + j],
            decreases 8 - i,
        {
            l.bits[i] = a[start + i];
            i = i + 1;
        }
        assert(l.bits@ =~= old(a)@.subrange(start as int, start + 8));
        let r = f(l);
        let n = a.len();
        let mut i: usize = 0;
        while i < LANES_32
            invariant
                i <= 8,
                start + 8 <= a@.len() == n,
                a@.len() == old(a)@.len(),
                forall|j: int| 0 <= j < i ==> a@[start + j] == r.bits[j],
                forall|j: int|
                    0 <= j < a@.len() && !(start <= j < start + i) ==> a@[j] == old(a)@[j],
            decreases 8 - i,
        {
            a[start + i] = r.bits[i];
            i = i + 1;
        }
        assert(r.bits@ =~= a@.subrange(start as int, start + 8));
    }

    /// Loads the first eight values of `a`, replaces them by what `f` returns
    /// for that register, and leaves the rest of `a` as it was.
    pub fn with_load_store(f: &impl Fn(F32x8) -> F32x8, a: &mut [u32])
        requires
            8 <= old(a)@.len(),
            forall|l: F32x8| f.requires((l,)),
        ensures
            final(a)@.len() == old(a)@.len(),
            lane_applied_32(*f, old(a)@.subrange(0, 8), final(a)@.subrange(0, 8)),
            forall|i: int| 8 <= i < old(a)@.len() ==> final(a)@[i] == old(a)@[i],
    {
        Self::load_apply_store_at(f, a, 0);
    }

    /// Replaces each full register of `a`, left to right, by what `f`
    /// returns for it, and each of the fewer than eight values that remain
    /// by what `f_rest` returns for it, through `ScalarVector32`.
    pub fn apply_elementwise(
        f: impl Fn(F32x8) -> F32x8,
        f_rest: impl Fn(u32) -> u32,
        a: &mut [u32],
    )
        requires
            forall|l: F32x8| f.requires((l,)),
            forall|x: u32| f_rest.requires((x,)),
        ensures
            final(a)@.len() == old(a)@.len(),
            forall|c: int|
                0 <= c < old(a)@.len() / 8 ==> #[trigger] lane_applied_32(
                    f,
                    chunk_32(old(a)@, c),
                    chunk_32(final(a)@, c),
                ),
            forall|i: int|
                old(a)@.len() - old(a)@.len() % 8 <= i < old(a)@.len() ==> f_rest.ensures(
                    (old(a)@[i],),
                    #[trigger] final(a)@[i],
                ),
    {
        let n = a.len();
        let full = n - n % LANES_32;
        let mut start: usize = 0;
        while start < full
            invariant
                start <= full <= n,
                full == n - n % 8,
                start % 8 == 0,
                a@.len() == n == old(a)@.len(),
                forall|l: F32x8| f.requires((l,)),
                forall|j: int| start <= j < n ==> a@[j] == old(a)@[j],
                forall|c: int|
                    0 <= c < start / 8 ==> #[trigger] lane_applied_32(
                        f,
                        chunk_32(old(a)@, c),
                        chunk_32(a@, c),
                    ),
            decreases full - start,
        {
            let ghost before = a@;
            Self::load_apply_store_at(&f, a, start);
            proof {
                assert forall|c: int| 0 <= c < start / 8 + 1 implies #[trigger] lane_applied_32(
                    f,
                    chunk_32(old(a)@, c),
                    chunk_32(a@, c),
                ) by {
                    if c < start / 8 {
                        assert(chunk_32(a@, c) =~= chunk_32(before, c));
                    } else {
                        assert(chunk_32(old(a)@, c) =~= before.subrange(start as int, start + 8));
                        assert(chunk_32(a@, c) =~= a@.subrange(start as int, start + 8));
                    }
                }
            }
            start = start + LANES_32;
        }
        let ghost mid = a@;
        ScalarVector32::apply_elementwise_from(&f_rest, a, full);
        assert forall|c: int| 0 <= c < n / 8 implies #[trigger] lane_applied_32(
            f,
            chunk_32(old(a)@, c),
            chunk_32(a@, c),
        ) by {
            assert(full / 8 == n / 8 && (0 <= c < n / 8 ==> 8 * c + 8 <= full)) by (nonlinear_arith)
                requires
                    full == n - n % 8,
                    0 <= c,
            ;
            assert(chunk_32(a@, c) =~= chunk_32(mid, c));
        }
    }

    /// The lanes, in order, in an array aligned as the register is.
    pub fn to_float_scalar_array(v: F32x8) -> (r: Aligned<A32, [u32; 8]>)
        ensures
            aligned_lanes_32(r) == v.bits@,
    {
        align_lanes_32(v.bits)
    }
}

/// Lane count of a 256-bit register of binary64 values.
pub const LANES_64: usize = 4;

/// A 256-bit register of four binary64 values, as bit patterns.
#[derive(Clone, Copy, Debug)]
pub struct F64x4 {
    pub bits: [u64; 4],
}

/// A 256-bit register of four signed 64-bit integers.
#[derive(Clone, Copy, Debug)]
pub struct I64x4 {
    pub ints: [i64; 4],
}

/// A 256-bit selection mask over four binary64 lanes.
#[derive(Clone, Copy, Debug)]
pub struct M64x4 {
    pub bits: [u64; 4],
}

impl M64x4 {
    /// Every lane is all ones or all zeros.
    pub open spec fn wf(&self) -> bool {
        forall|i: int| 0 <= i < 4 ==> self.bits[i] == 0 || self.bits[i] == TRUE_MASK_64
    }

    /// The mask whose every lane holds `b`.
    pub fn uniform(b: bool) -> (r: M64x4)
        ensures
            r.wf(),
            forall|i: int| 0 <= i < 4 ==> r.bits[i] == mask_64(b),
    {
        let v: u64 = if b {
            TRUE_MASK_64
        } else {
            0
        };
        M64x4 { bits: [v; 4] }
    }
}

/// The `c`-th run of four values of `s`.
pub open spec fn chunk_64(s: Seq<u64>, c: int) -> Seq<u64> {
    s.subrange(4 * c, 4 * c + 4)
}

/// `after` holds the lanes of a register that `f` may return for the
/// register whose lanes `before` holds.
pub open spec fn lane_applied_64<F: Fn(F64x4) -> F64x4>(
    f: F,
    before: Seq<u64>,
    after: Seq<u64>,
) -> bool {
    exists|l: F64x4, r: F64x4| l.bits@ == before && f.ensures((l,), r) && r.bits@ == after
}

/// The binary64 backend on 256-bit registers; its remainder goes to
/// `ScalarVector64`.
#[derive(Default)]
pub struct AVXVector64;

impl AVXVector64 {
    /// Every lane holds `v`.
    pub fn splat(v: u64) -> (r: F64x4)
        ensures
            forall|i: int| 0 <= i < 4 ==> r.bits[i] == v,
    {
        F64x4 { bits: [v; 4] }
    }

    /// Clears the sign bit of every lane.
    pub fn abs(a: F64x4) -> (r: F64x4)
        ensures
            forall|i: int| 0 <= i < 4 ==> r.bits[i] == a.bits[i] & MAGNITUDE_MASK_64,
    {
        let mut r = a;
        let mut i: usize = 0;
        while i < LANES_64
            invariant
                i <= 4,
                forall|j: int| 0 <= j < i ==> r.bits[j] == a.bits[j] & MAGNITUDE_MASK_64,
            decreases 4 - i,
        {
            r.bits[i] = ScalarVector64::abs(a.bits[i]);
            i = i + 1;
        }
        r
    }

    /// Flips the sign bit of every lane.
    pub fn neg(a: F64x4) -> (r: F64x4)
        ensures
            forall|i: int| 0 <= i < 4 ==> r.bits[i] == a.bits[i] ^ SIGN_BIT_64,
    {
        let mut r = a;
        let mut i: usize = 0;
        while i < LANES_64
            invariant
                i <= 4,
                forall|j: int| 0 <= j < i ==> r.bits[j] == a.bits[j] ^ SIGN_BIT_64,
            decreases 4 - i,
        {
            r.bits[i] = ScalarVector64::neg(a.bits[i]);
            i = i + 1;
        }
        r
    }

    /// Per bit, `a` where `mask` is set and `b` where it is clear.
    pub fn bitwise_select(mask: M64x4, a: F64x4, b: F64x4) -> (r: F64x4)
        ensures
            forall|i: int|
                0 <= i < 4 ==> r.bits[i] == (mask.bits[i] & a.bits[i]) | (!mask.bits[i]
                    & b.bits[i]),
    {
        let mut r = a;
        let mut i: usize = 0;
        while i < LANES_64
            invariant
                i <= 4,
                forall|j: int|
                    0 <= j < i ==> r.bits[j] == (mask.bits[j] & a.bits[j]) | (!mask.bits[j]
                        & b.bits[j]),
            decreases 4 - i,
        {
            r.bits[i] = ScalarVector64::bitwise_select(mask.bits[i], a.bits[i], b.bits[i]);
            i = i + 1;
        }
        r
    }

    /// The sign bit of each lane of `sign_src` with the magnitude bits of the
    /// same lane of `dest`.
    pub fn copy_sign(sign_src: F64x4, dest: F64x4) -> (r: F64x4)
        ensures
            forall|i: int|
                0 <= i < 4 ==> r.bits[i] == (sign_src.bits[i] & SIGN_BIT_64) | (dest.bits[i]
                    & MAGNITUDE_MASK_64),
    {
        // The pattern of -0.0 isolates the sign bit.
        let sign_bit_mask = M64x4 { bits: [SIGN_BIT_64; 4] };
        let r = Self::bitwise_select(sign_bit_mask, sign_src, dest);
        assert forall|i: int| 0 <= i < 4 implies r.bits[i] == (sign_src.bits[i] & SIGN_BIT_64) | (
        dest.bits[i] & MAGNITUDE_MASK_64) by {
            let (s, d, x) = (sign_src.bits[i], dest.bits[i], r.bits[i]);
            assert(x == (s & 0x8000_0000_0000_0000u64) | (d & 0x7fff_ffff_ffff_ffffu64)) by (bit_vector)
                requires
                    x == (0x8000_0000_0000_0000u64 & s) | (!0x8000_0000_0000_0000u64 & d),
            ;
        }
        r
    }

    /// Ordered equality of each pair of lanes.
    pub fn eq(a: F64x4, b: F64x4) -> (r: M64x4)
        ensures
            r.wf(),
            forall|i: int| 0 <= i < 4 ==> r.bits[i] == mask_64(ordered_eq_64(a.bits[i], b.bits[i])),
    {
        let mut r = M64x4 { bits: [0u64; 4] };
        let mut i: usize = 0;
        while i < LANES_64
            invariant
                i <= 4,
                forall|j: int|
                    0 <= j < i ==> r.bits[j] == mask_64(ordered_eq_64(a.bits[j], b.bits[j])),
            decreases 4 - i,
        {
            r.bits[i] = ScalarVector64::eq(a.bits[i], b.bits[i]);
            i = i + 1;
        }
        r
    }

    /// Ordered greater-than of each pair of lanes.
    pub fn gt(a: F64x4, b: F64x4) -> (r: M64x4)
        ensures
            r.wf(),
            forall|i: int| 0 <= i < 4 ==> r.bits[i] == mask_64(ordered_gt_64(a.bits[i], b.bits[i])),
    {
        let mut r = M64x4 { bits: [0u64; 4] };
        let mut i: usize = 0;
        while i < LANES_64
            invariant
                i <= 4,
                forall|j: int|
                    0 <= j < i ==> r.bits[j] == mask_64(ordered_gt_64(a.bits[j], b.bits[j])),
            decreases 4 - i,
        {
            r.bits[i] = ScalarVector64::gt(a.bits[i], b.bits[i]);
            i = i + 1;
        }
        r
    }

    /// Ordered less-than of each pair of lanes.
    pub fn lt(a: F64x4, b: F64x4) -> (r: M64x4)
        ensures
            r.wf(),
            forall|i: int| 0 <= i < 4 ==> r.bits[i] == mask_64(ordered_lt_64(a.bits[i], b.bits[i])),
    {
        let mut r = M64x4 { bits: [0u64; 4] };
        let mut i: usize = 0;
        while i < LANES_64
            invariant
                i <= 4,
                forall|j: int|
                    0 <= j < i ==> r.bits[j] == mask_64(ordered_lt_64(a.bits[j], b.bits[j])),
            decreases 4 - i,
        {
            r.bits[i] = ScalarVector64::lt(a.bits[i], b.bits[i]);
            i = i + 1;
        }
        r
    }

    /// Lane by lane, `a` where it is greater than `b` (ordered), else `b`.
    pub fn vmax(a: F64x4, b: F64x4) -> (r: F64x4)
        ensures
            forall|i: int|
                0 <= i < 4 ==> r.bits[i] == if ordered_gt_64(a.bits[i], b.bits[i]) {
                    a.bits[i]
                } else {
                    b.bits[i]
                },
    {
        let mut r = a;
        let mut i: usize = 0;
        while i < LANES_64
            invariant
                i <= 4,
                forall|j: int|
                    0 <= j < i ==> r.bits[j] == if ordered_gt_64(a.bits[j], b.bits[j]) {
                        a.bits[j]
                    } else {
                        b.bits[j]
                    },
            decreases 4 - i,
        {
            r.bits[i] = ScalarVector64::vmax(a.bits[i], b.bits[i]);
            i = i + 1;
        }
        r
    }

    /// Lane by lane, `a` where it is less than `b` (ordered), else `b`.
    pub fn vmin(a: F64x4, b: F64x4) -> (r: F64x4)
        ensures
            forall|i: int|
                0 <= i < 4 ==> r.bits[i] == if ordered_lt_64(a.bits[i], b.bits[i]) {
                    a.bits[i]
                } else {
                    b.bits[i]
                },
    {
        let mut r = a;
        let mut i: usize = 0;
        while i < LANES_64
            invariant
                i <= 4,
                forall|j: int|
                    0 <= j < i ==> r.bits[j] == if ordered_lt_64(a.bits[j], b.bits[j]) {
                        a.bits[j]
                    } else {
                        b.bits[j]
                    },
            decreases 4 - i,
        {
            r.bits[i] = ScalarVector64::vmin(a.bits[i], b.bits[i]);
            i = i + 1;
        }
        r
    }

    /// The integer lanes read as binary64 patterns, bit for bit.
    pub fn reinterpret_float_signed(v: I64x4) -> (r: F64x4)
        ensures
            forall|i: int| 0 <= i < 4 ==> r.bits[i] == v.ints[i] as u64,
    {
        let mut r = F64x4 { bits: [0u64; 4] };
        let mut i: usize = 0;
        while i < LANES_64
            invariant
                i <= 4,
                forall|j: int| 0 <= j < i ==> r.bits[j] == v.ints[j] as u64,
            decreases 4 - i,
        {
            r.bits[i] = v.ints[i] as u64;
            i = i + 1;
        }
        r
    }

    /// Loads the four values at `start`, replaces them by what `f` returns
    /// for that register, and leaves the rest of `a` as it was.
    fn load_apply_store_at(f: &impl Fn(F64x4) -> F64x4, a: &mut [u64], start: usize)
        requires
            start + 4 <= old(a)@.len(),
            forall|l: F64x4| f.requires((l,)),
        ensures
            final(a)@.len() == old(a)@.len(),
            forall|i: int|
                0 <= i < old(a)@.len() && !(start <= i < start + 4) ==> final(a)@[i] == old(a)@[i],
            lane_applied_64(
                *f,
                old(a)@.subrange(start as int, start + 4),
                final(a)@.subrange(start as int, start + 4),
            ),
    {
        let mut l = F64x4 { bits: [0u64; 4] };
        let mut i: usize = 0;
        while i < LANES_64
            invariant
                i <= 4,
                start + 4 <= a@.len(),
                forall|j: int| 0 <= j < i ==> l.bits[j] == a@[start + j],
            decreases 4 - i,
        {
            l.bits[i] = a[start + i];
            i = i + 1;
        }
        assert(l.bits@ =~= old(a)@.subrange(start as int, start + 4));
        let r = f(l);
        let n = a.len();
        let mut i: usize = 0;
        while i < LANES_64
            invariant
                i <= 4,
                start + 4 <= a@.len() == n,
                a@.len() == old(a)@.len(),
                forall|j: int| 0 <= j < i ==> a@[start + j] == r.bits[j],
                forall|j: int|
                    0 <= j < a@.len() && !(start <= j < start + i) ==> a@[j] == old(a)@[j],
            decreases 4 - i,
        {
            a[start + i] = r.bits[i];
            i = i + 1;
        }
        assert(r.bits@ =~= a@.subrange(start as int, start + 4));
    }

    /// Loads the first four values of `a`, replaces them by what `f` returns
    /// for that register, and leaves the rest of `a` as it was.
    pub fn with_load_store(f: &impl Fn(F64x4) -> F64x4, a: &mut [u64])
        requires
            4 <= old(a)@.len(),
            forall|l: F64x4| f.requires((l,)),
        ensures
            final(a)@.len() == old(a)@.len(),
            lane_applied_64(*f, old(a)@.subrange(0, 4), final(a)@.subrange(0, 4)),
            forall|i: int| 4 <= i < old(a)@.len() ==> final(a)@[i] == old(a)@[i],
    {
        Self::load_apply_store_at(f, a, 0);
    }

    /// Replaces each full register of `a`, left to right, by what `f`
    /// returns for it, and each of the fewer than four values that remain
    /// by what `f_rest` returns for it, through `ScalarVector64`.
    pub fn apply_elementwise(
        f: impl Fn(F64x4) -> F64x4,
        f_rest: impl Fn(u64) -> u64,
        a: &mut [u64],
    )
        requires
            forall|l: F64x4| f.requires((l,)),
            forall|x: u64| f_rest.requires((x,)),
        ensures
            final(a)@.len() == old(a)@.len(),
            forall|c: int|
                0 <= c < old(a)@.len() / 4 ==> #[trigger] lane_applied_64(
                    f,
                    chunk_64(old(a)@, c),
                    chunk_64(final(a)@, c),
                ),
            forall|i: int|
                old(a)@.len() - old(a)@.len() % 4 <= i < old(a)@.len() ==> f_rest.ensures(
                    (old(a)@[i],),
                    #[trigger] final(a)@[i],
                ),
    {
        let n = a.len();
        let full = n - n % LANES_64;
        let mut start: usize = 0;
        while start < full
            invariant
                start <= full <= n,
                full == n - n % 4,
                start % 4 == 0,
                a@.len() == n == old(a)@.len(),
                forall|l: F64x4| f.requires((l,)),
                forall|j: int| start <= j < n ==> a@[j] == old(a)@[j],
                forall|c: int|
                    0 <= c < start / 4 ==> #[trigger] lane_applied_64(
                        f,
                        chunk_64(old(a)@, c),
                        chunk_64(a@, c),
                    ),
            decreases full - start,
        {
            let ghost before = a@;
            Self::load_apply_store_at(&f, a, start);
            proof {
                assert forall|c: int| 0 <= c < start / 4 + 1 implies #[trigger] lane_applied_64(
                    f,
                    chunk_64(old(a)@, c),
                    chunk_64(a@, c),
                ) by {
                    if c < start / 4 {
                        assert(chunk_64(a@, c) =~= chunk_64(before, c));
                    } else {
                        assert(chunk_64(old(a)@, c) =~= before.subrange(start as int, start + 4));
                        assert(chunk_64(a@, c) =~= a@.subrange(start as int, start + 4));
                    }
                }
            }
            start = start + LANES_64;
        }
        let ghost mid = a@;
        ScalarVector64::apply_elementwise_from(&f_rest, a, full);
        assert forall|c: int| 0 <= c < n / 4 implies #[trigger] lane_applied_64(
            f,
            chunk_64(old(a)@, c),
            chunk_64(a@, c),
        ) by {
            assert(full / 4 == n / 4 && (0 <= c < n / 4 ==> 4 * c + 4 <= full)) by (nonlinear_arith)
                requires
                    full == n - n % 4,
                    0 <= c,
            ;
            assert(chunk_64(a@, c) =~= chunk_64(mid, c));
        }
    }

    /// The lanes, in order, in an array aligned as the register is.
    pub fn to_float_scalar_array(v: F64x4) -> (r: Aligned<A32, [u64; 4]>)
        ensures
            aligned_lanes_64(r) == v.bits@,
    {
        align_lanes_64(v.bits)
    }
}

} // verus!
