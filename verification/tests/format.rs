//! Tests of the format descriptor: constants, pattern assembly, NaN-aware
//! comparison, and the shared bit-level helpers.

use softfloat::bits32::{compute_reciprocal32, eq_repr32, from_parts32, nan32, normalize32,
    wide_mul32, wide_shl32, wide_shr_sticky32};
use softfloat::bits64::{eq_repr64, from_parts64, normalize64, wide_mul64, wide_shr_sticky64};
use softfloat::descriptor::Float;

#[test]
fn descriptor_constants() {
    assert_eq!(<u32 as Float>::bits(), 32);
    assert_eq!(<u32 as Float>::significand_bits(), 23);
    assert_eq!(<u32 as Float>::exponent_bits(), 8);
    assert_eq!(<u32 as Float>::exponent_max(), 255);
    assert_eq!(<u32 as Float>::exponent_bias(), 127);
    assert_eq!(<u32 as Float>::sign_mask(), 0x8000_0000);
    assert_eq!(<u32 as Float>::significand_mask(), 0x007F_FFFF);
    assert_eq!(<u32 as Float>::implicit_bit(), 0x0080_0000);
    assert_eq!(<u32 as Float>::exponent_mask(), 0x7F80_0000);
    assert_eq!(<u64 as Float>::bits(), 64);
    assert_eq!(<u64 as Float>::significand_bits(), 52);
    assert_eq!(<u64 as Float>::exponent_bits(), 11);
    assert_eq!(<u64 as Float>::exponent_max(), 2047);
    assert_eq!(<u64 as Float>::exponent_bias(), 1023);
    assert_eq!(<u64 as Float>::sign_mask(), 0x8000_0000_0000_0000);
    assert_eq!(<u64 as Float>::significand_mask(), 0x000F_FFFF_FFFF_FFFF);
    assert_eq!(<u64 as Float>::implicit_bit(), 0x0010_0000_0000_0000);
    assert_eq!(<u64 as Float>::exponent_mask(), 0x7FF0_0000_0000_0000);
}

#[test]
fn repr_is_the_pattern() {
    assert_eq!(<u32 as Float>::repr(0x4049_0FDB), 0x4049_0FDB);
    assert_eq!(<u32 as Float>::from_repr(0x4049_0FDB), 0x4049_0FDB);
    assert_eq!(<u64 as Float>::repr(7), 7);
}

#[test]
fn from_parts_assembles_fields() {
    assert_eq!(from_parts32(false, 127, 0), 1.0f32.to_bits());
    assert_eq!(from_parts32(true, 128, 0x0040_0000), (-3.0f32).to_bits());
    // Out-of-field bits are masked away; the implicit bit is dropped.
    assert_eq!(from_parts32(false, 127, 0x00C0_0000), 1.5f32.to_bits());
    assert_eq!(from_parts64(false, 1023, 0), 1.0f64.to_bits());
    assert_eq!(
        <u32 as Float>::from_parts(true, 127, 0),
        (-1.0f32).to_bits()
    );
}

#[test]
fn eq_repr_treats_nans_alike() {
    assert!(eq_repr32(0x7FC0_0000, 0x7F80_0001));
    assert!(eq_repr32(1.0f32.to_bits(), 1.0f32.to_bits()));
    assert!(!eq_repr32(1.0f32.to_bits(), 2.0f32.to_bits()));
    assert!(!eq_repr32(0x7FC0_0000, 1.0f32.to_bits()));
    assert!(eq_repr64(0x7FF8_0000_0000_0000, 0xFFF0_0000_0000_0001));
    assert!(!eq_repr64(0, 0x8000_0000_0000_0000));
    assert!(nan32(0x7FC0_0000));
    assert!(!nan32(0x7F80_0000));
}

#[test]
fn normalize_brings_leading_one_to_implicit_bit() {
    // A one in the lowest bit needs the full significand width.
    assert_eq!(normalize32(1), (-22, 0x0080_0000));
    assert_eq!(normalize32(0x0040_0000), (0, 0x0080_0000));
    assert_eq!(normalize32(0x0000_0300), (-13, 0x00C0_0000));
    assert_eq!(normalize64(1), (-51, 0x0010_0000_0000_0000));
    assert_eq!(normalize64(0x0008_0000_0000_0000), (0, 0x0010_0000_0000_0000));
    assert_eq!(<u32 as Float>::normalize(1), (-22, 0x0080_0000));
}

#[test]
fn wide_multiply_is_exact() {
    assert_eq!(wide_mul32(0xFFFF_FFFF, 0xFFFF_FFFF), (0xFFFF_FFFE, 0x0000_0001));
    assert_eq!(wide_mul32(0x0001_0000, 0x0001_0000), (1, 0));
    assert_eq!(wide_mul32(3, 5), (0, 15));
    assert_eq!(
        wide_mul64(0xFFFF_FFFF_FFFF_FFFF, 0xFFFF_FFFF_FFFF_FFFF),
        (0xFFFF_FFFF_FFFF_FFFE, 1)
    );
    assert_eq!(wide_mul64(1 << 32, 1 << 32), (1, 0));
    assert_eq!(
        <u64 as Float>::wide_multiply(1 << 63, 2),
        (1, 0)
    );
}

#[test]
fn wide_shifts_keep_value_and_sticky() {
    assert_eq!(wide_shl32(0x0000_0001, 0x8000_0000, 1), (3, 0));
    assert_eq!(wide_shr_sticky32(0x0000_0003, 0, 1), (1, 0x8000_0000));
    // A dropped nonzero bit lands in the sticky position.
    assert_eq!(wide_shr_sticky32(0, 0x0000_0101, 8), (0, 0x0000_0001 | 1));
    assert_eq!(wide_shr_sticky32(0x8000_0000, 1, 96), (0, 1));
    assert_eq!(wide_shr_sticky64(0, 0b1001, 3), (0, 1 | 1));
    assert_eq!(
        <u32 as Float>::wide_right_shift_with_sticky(0x0000_0003, 0, 1),
        (1, 0x8000_0000)
    );
    assert_eq!(<u32 as Float>::wide_left_shift(0x0000_0001, 0x8000_0000, 1), (3, 0));
}

#[test]
fn reciprocal_feeds_correct_quotients() {
    // The reciprocal is an internal fixed-point estimate; its correctness
    // shows in quotients landing on the right side of every rounding
    // boundary across divisor significands.
    for divisor_sig in [0u32, 1, 0x0040_0000, 0x0012_3456, 0x007F_FFFF, 0x0055_5555] {
        let b = 0x3F80_0000 | (divisor_sig & 0x007F_FFFF);
        let fb = f32::from_bits(b);
        for a in [1.0f32, 1.5, 3.0, 1.0e10, 7.25e-5] {
            let r = softfloat::division::__divsf3(a.to_bits(), b);
            assert_eq!(r, (a / fb).to_bits(), "{a} / {fb}");
        }
    }
    let _ = compute_reciprocal32(0x0080_0000);
    let _ = <u64 as Float>::compute_reciprocal(0x0010_0000_0000_0000);
}
