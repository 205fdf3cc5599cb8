use simd_array::avx::{AVXVector32, AVXVector64, F32x8, F64x4, I32x8, M32x8, M64x4};
use simd_array::scalar::{ScalarVector32, ScalarVector64};

fn lanes32(v: [f32; 8]) -> F32x8 {
    F32x8 { bits: v.map(f32::to_bits) }
}

fn floats32(v: F32x8) -> [f32; 8] {
    v.bits.map(f32::from_bits)
}

fn lanes64(v: [f64; 4]) -> F64x4 {
    F64x4 { bits: v.map(f64::to_bits) }
}

fn floats64(v: F64x4) -> [f64; 4] {
    v.bits.map(f64::from_bits)
}

#[test]
fn negate_ten_values_through_one_chunk_and_remainder() {
    let mut buf: Vec<u32> = (1..=10).map(|i| (i as f32).to_bits()).collect();
    AVXVector32::apply_elementwise(AVXVector32::neg, ScalarVector32::neg, &mut buf);
    let out: Vec<f32> = buf.iter().map(|b| f32::from_bits(*b)).collect();
    let expected: Vec<f32> = (1..=10).map(|i| -(i as f32)).collect();
    assert_eq!(out, expected);
}

#[test]
fn abs_of_three_values_stays_in_remainder() {
    let mut buf: Vec<u64> = [-1.5f64, 2.5, -0.0].iter().map(|v| v.to_bits()).collect();
    AVXVector64::apply_elementwise(AVXVector64::abs, ScalarVector64::abs, &mut buf);
    assert_eq!(buf, vec![1.5f64.to_bits(), 2.5f64.to_bits(), 0.0f64.to_bits()]);
}

#[test]
fn chunking_matches_scalar_for_every_length_32() {
    for n in 0..45usize {
        let input: Vec<u32> = (0..n).map(|i| (i as f32 * 1.25 - 7.0).to_bits()).collect();
        let mut buf = input.clone();
        AVXVector32::apply_elementwise(AVXVector32::abs, ScalarVector32::abs, &mut buf);
        let expected: Vec<u32> = input.iter().map(|x| ScalarVector32::abs(*x)).collect();
        assert_eq!(buf, expected, "length {}", n);
    }
}

#[test]
fn chunking_matches_scalar_for_every_length_64() {
    for n in 0..23usize {
        let input: Vec<u64> = (0..n).map(|i| (i as f64 * -0.5 + 3.0).to_bits()).collect();
        let mut buf = input.clone();
        AVXVector64::apply_elementwise(AVXVector64::neg, ScalarVector64::neg, &mut buf);
        let expected: Vec<u64> = input.iter().map(|x| (-f64::from_bits(*x)).to_bits()).collect();
        assert_eq!(buf, expected, "length {}", n);
    }
}

#[test]
fn with_load_store_touches_only_one_register() {
    let mut buf: Vec<u32> = (0..10).map(|i| (i as f32).to_bits()).collect();
    AVXVector32::with_load_store(&AVXVector32::neg, &mut buf);
    let out: Vec<f32> = buf.iter().map(|b| f32::from_bits(*b)).collect();
    assert_eq!(out, vec![-0.0, -1.0, -2.0, -3.0, -4.0, -5.0, -6.0, -7.0, 8.0, 9.0]);
}

#[test]
fn abs_clears_only_the_sign_bit() {
    let v = [-1.0f32, 1.0, -0.0, 0.0, f32::NEG_INFINITY, -3.5e-40, 123.25, -f32::MAX];
    let r = AVXVector32::abs(lanes32(v));
    for i in 0..8 {
        assert_eq!(r.bits[i], v[i].to_bits() & 0x7fff_ffff);
        assert_eq!(f32::from_bits(r.bits[i]), v[i].abs());
    }
    let w = [-2.0f64, 0.5, -0.0, f64::INFINITY];
    assert_eq!(floats64(AVXVector64::abs(lanes64(w))), [2.0, 0.5, 0.0, f64::INFINITY]);
}

#[test]
fn neg_twice_is_identity() {
    let v = [-1.0f32, 1.0, -0.0, 0.0, f32::NAN, 1e-42, 7.5, f32::MIN];
    let once = AVXVector32::neg(lanes32(v));
    assert_eq!(floats32(once)[0], 1.0);
    assert_eq!(once.bits[2], 0.0f32.to_bits());
    assert_eq!(AVXVector32::neg(once).bits, lanes32(v).bits);
    let w = [-1.0f64, 0.0, f64::NAN, 3.0];
    assert_eq!(AVXVector64::neg(AVXVector64::neg(lanes64(w))).bits, lanes64(w).bits);
}

#[test]
fn copy_sign_takes_sign_of_first_and_magnitude_of_second() {
    let s32 = |x: f32| AVXVector32::splat(x.to_bits());
    let s64 = |x: f64| AVXVector64::splat(x.to_bits());
    assert_eq!(floats32(AVXVector32::copy_sign(s32(-5.0), s32(3.0))), [-3.0f32; 8]);
    assert_eq!(floats32(AVXVector32::copy_sign(s32(2.0), s32(-7.5))), [7.5f32; 8]);
    assert_eq!(floats64(AVXVector64::copy_sign(s64(-5.0), s64(3.0))), [-3.0f64; 4]);
    assert_eq!(floats64(AVXVector64::copy_sign(s64(2.0), s64(-7.5))), [7.5f64; 4]);
    let r = ScalarVector32::copy_sign((-0.0f32).to_bits(), 1.0f32.to_bits());
    assert_eq!(r, (-1.0f32).to_bits());
}

#[test]
fn comparisons_with_nan_are_false() {
    let a = lanes32([f32::NAN, 1.0, f32::NAN, -0.0, 2.0, 1.0, f32::INFINITY, -1.0]);
    let b = lanes32([1.0, f32::NAN, f32::NAN, 0.0, 1.0, 2.0, f32::INFINITY, 1.0]);
    assert_eq!(AVXVector32::eq(a, b).bits, [0, 0, 0, u32::MAX, 0, 0, u32::MAX, 0]);
    assert_eq!(AVXVector32::gt(a, b).bits, [0, 0, 0, 0, u32::MAX, 0, 0, 0]);
    assert_eq!(AVXVector32::lt(a, b).bits, [0, 0, 0, 0, 0, u32::MAX, 0, u32::MAX]);
    let c = lanes64([f64::NAN, -3.0, 0.0, f64::NEG_INFINITY]);
    let d = lanes64([0.0, f64::NAN, -0.0, -1.0]);
    assert_eq!(AVXVector64::eq(c, d).bits, [0, 0, u64::MAX, 0]);
    assert_eq!(AVXVector64::gt(c, d).bits, [0, 0, 0, 0]);
    assert_eq!(AVXVector64::lt(c, d).bits, [0, 0, 0, u64::MAX]);
}

#[test]
fn select_with_uniform_masks() {
    let a = lanes32([1.0, 2.0, 3.0, 4.0, 5.0, 6.0, 7.0, 8.0]);
    let b = lanes32([-1.0; 8]);
    assert_eq!(AVXVector32::bitwise_select(M32x8::uniform(true), a, b).bits, a.bits);
    assert_eq!(AVXVector32::bitwise_select(M32x8::uniform(false), a, b).bits, b.bits);
    let c = lanes64([1.0, 2.0, 3.0, 4.0]);
    let d = lanes64([f64::NAN; 4]);
    assert_eq!(AVXVector64::bitwise_select(M64x4::uniform(true), c, d).bits, c.bits);
    assert_eq!(AVXVector64::bitwise_select(M64x4::uniform(false), c, d).bits, d.bits);
}

#[test]
fn select_by_comparison_mask_picks_per_lane() {
    let a = lanes32([1.0, 5.0, 3.0, 7.0, f32::NAN, 0.0, -2.0, 9.0]);
    let b = lanes32([4.0; 8]);
    let m = AVXVector32::gt(a, b);
    let r = AVXVector32::bitwise_select(m, a, b);
    assert_eq!(floats32(r)[..4], [4.0, 5.0, 4.0, 7.0]);
    assert_eq!(floats32(r)[4..], [4.0, 4.0, 4.0, 9.0]);
}

#[test]
fn max_and_min_return_second_operand_on_nan_and_zeros() {
    let a = lanes32([1.0, f32::NAN, 3.0, 0.0, -0.0, -5.0, 2.0, f32::INFINITY]);
    let b = lanes32([2.0, 1.0, f32::NAN, -0.0, 0.0, -6.0, 2.0, 1.0]);
    let mx = AVXVector32::vmax(a, b);
    let mn = AVXVector32::vmin(a, b);
    assert_eq!(mx.bits[0], 2.0f32.to_bits());
    assert_eq!(mx.bits[1], 1.0f32.to_bits());
    assert!(f32::from_bits(mx.bits[2]).is_nan());
    assert_eq!(mx.bits[3], (-0.0f32).to_bits());
    assert_eq!(mx.bits[4], 0.0f32.to_bits());
    assert_eq!(mx.bits[5], (-5.0f32).to_bits());
    assert_eq!(mx.bits[7], f32::INFINITY.to_bits());
    assert_eq!(mn.bits[0], 1.0f32.to_bits());
    assert_eq!(mn.bits[1], 1.0f32.to_bits());
    assert!(f32::from_bits(mn.bits[2]).is_nan());
    assert_eq!(mn.bits[3], (-0.0f32).to_bits());
    assert_eq!(mn.bits[5], (-6.0f32).to_bits());
    let c = lanes64([f64::NAN, 1.0, -1.0, 0.0]);
    let d = lanes64([3.0, f64::NAN, -2.0, -0.0]);
    assert_eq!(floats64(AVXVector64::vmax(c, d))[0], 3.0);
    assert!(floats64(AVXVector64::vmax(c, d))[1].is_nan());
    assert_eq!(floats64(AVXVector64::vmin(c, d))[2], -2.0);
    assert_eq!(AVXVector64::vmin(c, d).bits[3], (-0.0f64).to_bits());
}

#[test]
fn splat_then_materialise_gives_copies() {
    let x = (-2.75f32).to_bits();
    let arr = AVXVector32::to_float_scalar_array(AVXVector32::splat(x));
    assert_eq!(*arr, [x; 8]);
    let y = 1.0e300f64.to_bits();
    let arr = AVXVector64::to_float_scalar_array(AVXVector64::splat(y));
    assert_eq!(*arr, [y; 4]);
}

#[test]
fn materialise_keeps_lane_order() {
    let v = lanes32([1.0, 2.0, 3.0, 4.0, 5.0, 6.0, 7.0, 8.0]);
    let arr = AVXVector32::to_float_scalar_array(v);
    assert_eq!(*arr, v.bits);
}

#[test]
fn reinterpret_integer_lanes_as_floats() {
    let v = I32x8 {
        ints: [0x3f80_0000, -0x4080_0000, 0, i32::MIN, 1, -1, 0x7f80_0000, 0x7fc0_0000],
    };
    let r = floats32(AVXVector32::reinterpret_float_signed(v));
    assert_eq!(r[0], 1.0);
    assert_eq!(r[1], -1.0);
    assert_eq!(r[3].to_bits(), (-0.0f32).to_bits());
    assert_eq!(r[6], f32::INFINITY);
    assert!(r[7].is_nan());
    assert_eq!(AVXVector32::reinterpret_float_signed(v).bits[5], u32::MAX);
}

#[test]
fn scalar_fallback_applies_to_each_element() {
    let mut buf: Vec<u32> = vec![1.0f32.to_bits(), (-2.0f32).to_bits()];
    ScalarVector32::apply_elementwise(&ScalarVector32::neg, &mut buf);
    assert_eq!(buf, vec![(-1.0f32).to_bits(), 2.0f32.to_bits()]);
    let mut empty: Vec<u64> = Vec::new();
    AVXVector64::apply_elementwise(AVXVector64::neg, ScalarVector64::neg, &mut empty);
    assert!(empty.is_empty());
}
