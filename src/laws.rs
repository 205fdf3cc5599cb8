//! What holds across the operations: sign manipulation, comparisons with
//! NaN, selection by uniform masks, the transparency of the chunking driver,
//! and materialising a broadcast register.
use vstd::prelude::*;

use aligned::{Aligned, A32};

use crate::aligned_lanes::{aligned_lanes_32, aligned_lanes_64};
use crate::avx::{chunk_32, chunk_64, lane_applied_32, lane_applied_64, F32x8, F64x4};
use crate::ieee::{
    is_nan_32, is_nan_64, mask_32, mask_64, ordered_eq_32, ordered_eq_64, ordered_gt_32,
    ordered_gt_64, ordered_lt_32, ordered_lt_64, MAGNITUDE_MASK_32, MAGNITUDE_MASK_64,
    SIGN_BIT_32, SIGN_BIT_64, TRUE_MASK_32, TRUE_MASK_64,
};

verus! {

/// `abs` keeps every bit of `x` but the sign bit, which it clears.
pub proof fn lemma_abs_clears_sign_32(x: u32)
    ensures
        (x & MAGNITUDE_MASK_32) & SIGN_BIT_32 == 0,
        (x & MAGNITUDE_MASK_32) | (x & SIGN_BIT_32) == x,
{
    assert((x & 0x7fff_ffffu32) & 0x8000_0000u32 == 0) by (bit_vector);
    assert((x & 0x7fff_ffffu32) | (x & 0x8000_0000u32) == x) by (bit_vector);
}

/// `abs` keeps every bit of `x` but the sign bit, which it clears.
pub proof fn lemma_abs_clears_sign_64(x: u64)
    ensures
        (x & MAGNITUDE_MASK_64) & SIGN_BIT_64 == 0,
        (x & MAGNITUDE_MASK_64) | (x & SIGN_BIT_64) == x,
{
    assert((x & 0x7fff_ffff_ffff_ffffu64) & 0x8000_0000_0000_0000u64 == 0) by (bit_vector);
    assert((x & 0x7fff_ffff_ffff_ffffu64) | (x & 0x8000_0000_0000_0000u64) == x) by (bit_vector);
}

/// Negating twice gives back the same bit pattern.
pub proof fn lemma_neg_neg_32(x: u32)
    ensures
        (x ^ SIGN_BIT_32) ^ SIGN_BIT_32 == x,
{
    assert((x ^ 0x8000_0000u32) ^ 0x8000_0000u32 == x) by (bit_vector);
}

/// Negating twice gives back the same bit pattern.
pub proof fn lemma_neg_neg_64(x: u64)
    ensures
        (x ^ SIGN_BIT_64) ^ SIGN_BIT_64 == x,
{
    assert((x ^ 0x8000_0000_0000_0000u64) ^ 0x8000_0000_0000_0000u64 == x) by (bit_vector);
}

/// `copy_sign(a, b)` has the sign bit of `a` and the magnitude bits of `b`.
pub proof fn lemma_copy_sign_32(a: u32, b: u32)
    ensures
        ((a & SIGN_BIT_32) | (b & MAGNITUDE_MASK_32)) & SIGN_BIT_32 == a & SIGN_BIT_32,
        ((a & SIGN_BIT_32) | (b & MAGNITUDE_MASK_32)) & MAGNITUDE_MASK_32 == b & MAGNITUDE_MASK_32,
{
    assert(((a & 0x8000_0000u32) | (b & 0x7fff_ffffu32)) & 0x8000_0000u32 == a & 0x8000_0000u32)
        by (bit_vector);
    assert(((a & 0x8000_0000u32) | (b & 0x7fff_ffffu32)) & 0x7fff_ffffu32 == b & 0x7fff_ffffu32)
        by (bit_vector);
}

/// `copy_sign(a, b)` has the sign bit of `a` and the magnitude bits of `b`.
pub proof fn lemma_copy_sign_64(a: u64, b: u64)
    ensures
        ((a & SIGN_BIT_64) | (b & MAGNITUDE_MASK_64)) & SIGN_BIT_64 == a & SIGN_BIT_64,
        ((a & SIGN_BIT_64) | (b & MAGNITUDE_MASK_64)) & MAGNITUDE_MASK_64 == b & MAGNITUDE_MASK_64,
{
    assert(((a & 0x8000_0000_0000_0000u64) | (b & 0x7fff_ffff_ffff_ffffu64))
        & 0x8000_0000_0000_0000u64 == a & 0x8000_0000_0000_0000u64) by (bit_vector);
    assert(((a & 0x8000_0000_0000_0000u64) | (b & 0x7fff_ffff_ffff_ffffu64))
        & 0x7fff_ffff_ffff_ffffu64 == b & 0x7fff_ffff_ffff_ffffu64) by (bit_vector);
}

/// Every comparison with a NaN operand yields an all-zero mask lane.
pub proof fn lemma_nan_compares_false_32(a: u32, b: u32)
    requires
        is_nan_32(a) || is_nan_32(b),
    ensures
        mask_32(ordered_eq_32(a, b)) == 0,
        mask_32(ordered_lt_32(a, b)) == 0,
        mask_32(ordered_gt_32(a, b)) == 0,
{
}

/// Every comparison with a NaN operand yields an all-zero mask lane.
pub proof fn lemma_nan_compares_false_64(a: u64, b: u64)
    requires
        is_nan_64(a) || is_nan_64(b),
    ensures
        mask_64(ordered_eq_64(a, b)) == 0,
        mask_64(ordered_lt_64(a, b)) == 0,
        mask_64(ordered_gt_64(a, b)) == 0,
{
}

/// Selecting with an all-ones lane gives the first operand, with an
/// all-zeros lane the second.
pub proof fn lemma_select_uniform_32(a: u32, b: u32)
    ensures
        (TRUE_MASK_32 & a) | (!TRUE_MASK_32 & b) == a,
        (0u32 & a) | (!0u32 & b) == b,
{
    assert((0xffff_ffffu32 & a) | (!0xffff_ffffu32 & b) == a) by (bit_vector);
    assert((0u32 & a) | (!0u32 & b) == b) by (bit_vector);
}

/// Selecting with an all-ones lane gives the first operand, with an
/// all-zeros lane the second.
pub proof fn lemma_select_uniform_64(a: u64, b: u64)
    ensures
        (TRUE_MASK_64 & a) | (!TRUE_MASK_64 & b) == a,
        (0u64 & a) | (!0u64 & b) == b,
{
    assert((0xffff_ffff_ffff_ffffu64 & a) | (!0xffff_ffff_ffff_ffffu64 & b) == a) by (bit_vector);
    assert((0u64 & a) | (!0u64 & b) == b) by (bit_vector);
}

/// Chunking is transparent: when the register function and the scalar
/// function both compute `g` lane by lane, a buffer left as the driver
/// leaves it (each full run of eight replaced through `f`, the rest through
/// `f_rest`) is `g` applied to each original element, for every length.
pub proof fn lemma_apply_elementwise_transparent_32<F: Fn(F32x8) -> F32x8, R: Fn(u32) -> u32>(
    f: F,
    f_rest: R,
    g: spec_fn(u32) -> u32,
    before: Seq<u32>,
    after: Seq<u32>,
)
    requires
        forall|l: F32x8, r: F32x8, k: int|
            0 <= k < 8 && #[trigger] f.ensures((l,), r) ==> #[trigger] r.bits[k] == g(l.bits[k]),
        forall|x: u32, y: u32| #[trigger] f_rest.ensures((x,), y) ==> y == g(x),
        after.len() == before.len(),
        forall|c: int|
            0 <= c < before.len() / 8 ==> #[trigger] lane_applied_32(
                f,
                chunk_32(before, c),
                chunk_32(after, c),
            ),
        forall|i: int|
            before.len() - before.len() % 8 <= i < before.len() ==> f_rest.ensures(
                (before[i],),
                #[trigger] after[i],
            ),
    ensures
        after == before.map_values(g),
{
    let n = before.len();
    assert forall|i: int| 0 <= i < n implies #[trigger] after[i] == g(before[i]) by {
        if i < n - n % 8 {
            let c = i / 8;
            let k = i % 8;
            assert(8 * c + k == i && 0 <= k < 8 && 0 <= c < n / 8) by (nonlinear_arith)
                requires
                    c == i / 8,
                    k == i % 8,
                    0 <= i < n - n % 8,
            ;
            assert(lane_applied_32(f, chunk_32(before, c), chunk_32(after, c)));
            let (l, r) = choose|l: F32x8, r: F32x8|
                l.bits@ == chunk_32(before, c) && f.ensures((l,), r) && r.bits@ == chunk_32(
                    after,
                    c,
                );
            assert(l.bits[k] == before[i]);
            assert(r.bits[k] == after[i]);
        }
    }
    assert(after =~= before.map_values(g));
}

/// Chunking is transparent: when the register function and the scalar
/// function both compute `g` lane by lane, a buffer left as the driver
/// leaves it (each full run of four replaced through `f`, the rest through
/// `f_rest`) is `g` applied to each original element, for every length.
pub proof fn lemma_apply_elementwise_transparent_64<F: Fn(F64x4) -> F64x4, R: Fn(u64) -> u64>(
    f: F,
    f_rest: R,
    g: spec_fn(u64) -> u64,
    before: Seq<u64>,
    after: Seq<u64>,
)
    requires
        forall|l: F64x4, r: F64x4, k: int|
            0 <= k < 4 && #[trigger] f.ensures((l,), r) ==> #[trigger] r.bits[k] == g(l.bits[k]),
        forall|x: u64, y: u64| #[trigger] f_rest.ensures((x,), y) ==> y == g(x),
        after.len() == before.len(),
        forall|c: int|
            0 <= c < before.len() / 4 ==> #[trigger] lane_applied_64(
                f,
                chunk_64(before, c),
                chunk_64(after, c),
            ),
        forall|i: int|
            before.len() - before.len() % 4 <= i < before.len() ==> f_rest.ensures(
                (before[i],),
                #[trigger] after[i],
            ),
    ensures
        after == before.map_values(g),
{
    let n = before.len();
    assert forall|i: int| 0 <= i < n implies #[trigger] after[i] == g(before[i]) by {
        if i < n - n % 4 {
            let c = i / 4;
            let k = i % 4;
            assert(4 * c + k == i && 0 <= k < 4 && 0 <= c < n / 4) by (nonlinear_arith)
                requires
                    c == i / 4,
                    k == i % 4,
                    0 <= i < n - n % 4,
            ;
            assert(lane_applied_64(f, chunk_64(before, c), chunk_64(after, c)));
            let (l, r) = choose|l: F64x4, r: F64x4|
                l.bits@ == chunk_64(before, c) && f.ensures((l,), r) && r.bits@ == chunk_64(
                    after,
                    c,
                );
            assert(l.bits[k] == before[i]);
            assert(r.bits[k] == after[i]);
        }
    }
    assert(after =~= before.map_values(g));
}

/// Materialising a register that `splat(x)` filled gives eight copies of `x`.
pub proof fn lemma_splat_round_trip_32(x: u32, v: F32x8, arr: Aligned<A32, [u32; 8]>)
    requires
        forall|i: int| 0 <= i < 8 ==> v.bits[i] == x,
        aligned_lanes_32(arr) == v.bits@,
    ensures
        aligned_lanes_32(arr) == Seq::new(8, |i: int| x),
{
    assert(aligned_lanes_32(arr) =~= Seq::new(8, |i: int| x));
}

/// Materialising a register that `splat(x)` filled gives four copies of `x`.
pub proof fn lemma_splat_round_trip_64(x: u64, v: F64x4, arr: Aligned<A32, [u64; 4]>)
    requires
        forall|i: int| 0 <= i < 4 ==> v.bits[i] == x,
        aligned_lanes_64(arr) == v.bits@,
    ensures
        aligned_lanes_64(arr) == Seq::new(4, |i: int| x),
{
    assert(aligned_lanes_64(arr) =~= Seq::new(4, |i: int| x));
}

} // verus!
