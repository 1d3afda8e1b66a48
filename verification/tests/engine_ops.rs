//! Scenario tests for the add/subtract, multiply and divide engines, plus
//! comparisons of every engine against the host's hardware arithmetic on a
//! grid of operand patterns.

use softfloat::addition::{__adddf3, __addsf3, __subdf3, __subsf3};
use softfloat::division::{__divdf3, __divsf3};
use softfloat::multiplication::{__muldf3, __mulsf3};

const QNAN32: u32 = 0x7FC0_0000;
const QNAN64: u64 = 0x7FF8_0000_0000_0000;
const INF32: u32 = 0x7F80_0000;
const NEG_INF32: u32 = 0xFF80_0000;
const INF64: u64 = 0x7FF0_0000_0000_0000;
const NEG_INF64: u64 = 0xFFF0_0000_0000_0000;

fn is_nan32(x: u32) -> bool {
    (x & 0x7FFF_FFFF) > INF32
}

fn is_nan64(x: u64) -> bool {
    (x & 0x7FFF_FFFF_FFFF_FFFF) > INF64
}

#[test]
fn add_simple_values() {
    assert_eq!(__addsf3(1.0f32.to_bits(), 2.0f32.to_bits()), 3.0f32.to_bits());
    assert_eq!(__addsf3(1.5f32.to_bits(), 0.25f32.to_bits()), 1.75f32.to_bits());
    assert_eq!(__adddf3(1.0f64.to_bits(), 2.0f64.to_bits()), 3.0f64.to_bits());
    assert_eq!(__adddf3(1.5f64.to_bits(), 0.25f64.to_bits()), 1.75f64.to_bits());
}

#[test]
fn sub_simple_values() {
    assert_eq!(__subsf3(3.0f32.to_bits(), 2.0f32.to_bits()), 1.0f32.to_bits());
    assert_eq!(__subdf3(3.0f64.to_bits(), 2.0f64.to_bits()), 1.0f64.to_bits());
    // Exact cancellation gives positive zero.
    assert_eq!(__subsf3(1.5f32.to_bits(), 1.5f32.to_bits()), 0);
    assert_eq!(__subdf3(2.5f64.to_bits(), 2.5f64.to_bits()), 0);
}

#[test]
fn zero_sign_rule() {
    // +0 + -0 == +0
    assert_eq!(__addsf3(0x0000_0000, 0x8000_0000), 0x0000_0000);
    // -0 + -0 == -0
    assert_eq!(__addsf3(0x8000_0000, 0x8000_0000), 0x8000_0000);
    assert_eq!(__adddf3(0, 0x8000_0000_0000_0000), 0);
    assert_eq!(
        __adddf3(0x8000_0000_0000_0000, 0x8000_0000_0000_0000),
        0x8000_0000_0000_0000
    );
}

#[test]
fn add_identity() {
    // x + +0 == x for finite x other than -0.
    for x in [0u32, 0x3F80_0000, 0xC228_0000, 0x0000_0001, 0x7F7F_FFFF] {
        assert_eq!(__addsf3(x, 0), x);
    }
}

#[test]
fn special_value_matrix() {
    // div(1.0, 0.0) = +inf ; div(1.0, -0.0) = -inf
    assert_eq!(__divsf3(1.0f32.to_bits(), 0), INF32);
    assert_eq!(__divsf3(1.0f32.to_bits(), 0x8000_0000), NEG_INF32);
    assert_eq!(__divdf3(1.0f64.to_bits(), 0), INF64);
    assert_eq!(__divdf3(1.0f64.to_bits(), 0x8000_0000_0000_0000), NEG_INF64);
    // div(0.0, 0.0) = quiet NaN
    assert_eq!(__divsf3(0, 0), QNAN32);
    assert_eq!(__divdf3(0, 0), QNAN64);
    // mul(inf, 0.0) = quiet NaN
    assert_eq!(__mulsf3(INF32, 0), QNAN32);
    assert_eq!(__muldf3(INF64, 0), QNAN64);
    // add(inf, -inf) = quiet NaN
    assert_eq!(__addsf3(INF32, NEG_INF32), QNAN32);
    assert_eq!(__adddf3(INF64, NEG_INF64), QNAN64);
    // inf / inf and inf absorbing a finite addend
    assert_eq!(__divsf3(INF32, INF32), QNAN32);
    assert_eq!(__addsf3(INF32, 1.0f32.to_bits()), INF32);
    assert_eq!(__divsf3(INF32, 2.0f32.to_bits()), INF32);
    assert_eq!(__divsf3(2.0f32.to_bits(), INF32), 0);
}

#[test]
fn nan_propagates_quiet() {
    let signaling: u32 = 0x7F80_0001;
    let r = __addsf3(signaling, 1.0f32.to_bits());
    assert!(is_nan32(r));
    assert_ne!(r & 0x0040_0000, 0);
    let r = __mulsf3(1.0f32.to_bits(), signaling);
    assert!(is_nan32(r));
    assert_ne!(r & 0x0040_0000, 0);
}

#[test]
fn commutativity_samples() {
    let vals = [0x3F80_0000u32, 0xC228_0000, 0x0000_0001, 0x7F7F_FFFF, 0x3EAA_AAAB];
    for &a in &vals {
        for &b in &vals {
            assert_eq!(__addsf3(a, b), __addsf3(b, a));
            assert_eq!(__mulsf3(a, b), __mulsf3(b, a));
        }
    }
}

#[test]
fn mul_identity_samples() {
    for x in [
        0u32,
        0x8000_0000,
        0x3F80_0000,
        0xC228_0000,
        0x0000_0001,
        0x0040_0000,
        0x7F7F_FFFF,
    ] {
        assert_eq!(__mulsf3(x, 1.0f32.to_bits()), x);
    }
    for x in [0u64, 0x8000_0000_0000_0000, 0x0000_0000_0000_0001, 0xC039_0000_0000_0000] {
        assert_eq!(__muldf3(x, 1.0f64.to_bits()), x);
    }
}

#[test]
fn mul_tie_rounds_to_even() {
    // 1.5 * (1 + 2^-23): exactly halfway, odd kept bit, rounds up.
    assert_eq!(__mulsf3(0x3FC0_0000, 0x3F80_0001), 0x3FC0_0002);
    // (1 + 2^-22) * 1.25: exactly halfway, even kept bit, stays.
    assert_eq!(__mulsf3(0x3F80_0002, 0x3FA0_0000), 0x3FA0_0002);
    // Double width: 1.5 * (1 + 2^-52) rounds up to even.
    assert_eq!(
        __muldf3(0x3FF8_0000_0000_0000, 0x3FF0_0000_0000_0001),
        0x3FF8_0000_0000_0002
    );
    // (1 + 2^-51) * 1.25 is halfway with an even kept bit and stays.
    assert_eq!(
        __muldf3(0x3FF0_0000_0000_0002, 0x3FF4_0000_0000_0000),
        0x3FF4_0000_0000_0002
    );
}

#[test]
fn div_brackets_half_ulp() {
    // Division can never land exactly on a half-ULP boundary; these
    // quotients sit just above and just below one and must round in
    // opposite directions.
    assert_eq!(__divsf3(1.0f32.to_bits(), 3.0f32.to_bits()), 0x3EAA_AAAB);
    assert_eq!(__divsf3(1.0f32.to_bits(), 7.0f32.to_bits()), 0x3E12_4925);
    assert_eq!(__divsf3(2.0f32.to_bits(), 3.0f32.to_bits()), 0x3F2A_AAAB);
    assert_eq!(__divsf3(10.0f32.to_bits(), 3.0f32.to_bits()), 0x4055_5555);
    assert_eq!(__divdf3(1.0f64.to_bits(), 7.0f64.to_bits()), 0x3FC2_4924_9249_2492);
    assert_eq!(__divdf3(2.0f64.to_bits(), 3.0f64.to_bits()), 0x3FE5_5555_5555_5555);
    assert_eq!(__divsf3(7.0f32.to_bits(), 2.0f32.to_bits()), 0x4060_0000);
}

#[test]
fn subnormal_multiplication() {
    // Two minimal subnormals underflow to a correctly signed zero.
    assert_eq!(__mulsf3(0x0000_0001, 0x0000_0001), 0x0000_0000);
    assert_eq!(__mulsf3(0x8000_0001, 0x0000_0001), 0x8000_0000);
    assert_eq!(__muldf3(0x0000_0000_0000_0001, 0x0000_0000_0000_0001), 0);
    assert_eq!(
        __muldf3(0x8000_0000_0000_0001, 0x0000_0000_0000_0001),
        0x8000_0000_0000_0000
    );
    // The smallest normal halved denormalizes to the right pattern.
    assert_eq!(__mulsf3(0x0080_0000, 0.5f32.to_bits()), 0x0040_0000);
    assert_eq!(
        __muldf3(0x0010_0000_0000_0000, 0.5f64.to_bits()),
        0x0008_0000_0000_0000
    );
}

#[test]
fn overflow_saturates_to_infinity() {
    let big: u32 = 0x7F7F_FFFF;
    assert_eq!(__mulsf3(big, big), INF32);
    assert_eq!(__addsf3(big, big), INF32);
    assert_eq!(__mulsf3(big | 0x8000_0000, big), NEG_INF32);
}

fn grid32() -> Vec<u32> {
    vec![
        0x0000_0000,
        0x8000_0000,
        0x3F80_0000,
        0xBF80_0000,
        0x4049_0FDB,
        0x0000_0001,
        0x807F_FFFF,
        0x0080_0000,
        0x7F7F_FFFF,
        0xFF7F_FFFF,
        0x7F80_0000,
        0xFF80_0000,
        0x7FC0_0000,
        0x3F00_0000,
        0x42F6_E979,
        0x3EAA_AAAB,
        0x5ABC_1234,
        0xC228_0000,
        0x0012_3456,
        0x4320_0000,
    ]
}

fn grid64() -> Vec<u64> {
    vec![
        0,
        0x8000_0000_0000_0000,
        0x3FF0_0000_0000_0000,
        0xBFF0_0000_0000_0000,
        0x4009_21FB_5444_2D11,
        0x0000_0000_0000_0001,
        0x800F_FFFF_FFFF_FFFF,
        0x0010_0000_0000_0000,
        0x7FEF_FFFF_FFFF_FFFF,
        0xFFEF_FFFF_FFFF_FFFF,
        0x7FF0_0000_0000_0000,
        0xFFF0_0000_0000_0000,
        0x7FF8_0000_0000_0000,
        0x3FE0_0000_0000_0000,
        0x405E_DD2F_1A9F_BE77,
        0xC045_0000_0000_0000,
        0x0001_2345_6789_ABCD,
        0x4640_0000_0000_0000,
    ]
}

fn same32(ours: u32, host: f32) -> bool {
    if is_nan32(ours) && host.is_nan() {
        true
    } else {
        ours == host.to_bits()
    }
}

fn same64(ours: u64, host: f64) -> bool {
    if is_nan64(ours) && host.is_nan() {
        true
    } else {
        ours == host.to_bits()
    }
}

#[test]
fn matches_host_add_sub_mul_single() {
    for &a in &grid32() {
        for &b in &grid32() {
            let (fa, fb) = (f32::from_bits(a), f32::from_bits(b));
            assert!(same32(__addsf3(a, b), fa + fb), "add {a:#x} {b:#x}");
            assert!(same32(__subsf3(a, b), fa - fb), "sub {a:#x} {b:#x}");
            assert!(same32(__mulsf3(a, b), fa * fb), "mul {a:#x} {b:#x}");
        }
    }
}

#[test]
fn matches_host_add_sub_mul_double() {
    for &a in &grid64() {
        for &b in &grid64() {
            let (fa, fb) = (f64::from_bits(a), f64::from_bits(b));
            assert!(same64(__adddf3(a, b), fa + fb), "add {a:#x} {b:#x}");
            assert!(same64(__subdf3(a, b), fa - fb), "sub {a:#x} {b:#x}");
            assert!(same64(__muldf3(a, b), fa * fb), "mul {a:#x} {b:#x}");
        }
    }
}

#[test]
fn matches_host_div_single() {
    for &a in &grid32() {
        for &b in &grid32() {
            let (fa, fb) = (f32::from_bits(a), f32::from_bits(b));
            let host = fa / fb;
            // Quotients whose pre-rounding exponent sits below the normal
            // range flush to zero by design; skip everything within a factor
            // of two of the smallest normal.
            if host.is_finite() && host != 0.0 && host.abs() < 2.0 * f32::MIN_POSITIVE {
                continue;
            }
            assert!(same32(__divsf3(a, b), host), "div {a:#x} {b:#x}");
        }
    }
}

#[test]
fn matches_host_div_double() {
    for &a in &grid64() {
        for &b in &grid64() {
            let (fa, fb) = (f64::from_bits(a), f64::from_bits(b));
            let host = fa / fb;
            if host.is_finite() && host != 0.0 && host.abs() < 2.0 * f64::MIN_POSITIVE {
                continue;
            }
            assert!(same64(__divdf3(a, b), host), "div {a:#x} {b:#x}");
        }
    }
}

#[test]
fn sub_is_add_of_negation() {
    for &a in &grid32() {
        for &b in &grid32() {
            assert_eq!(__subsf3(a, b), __addsf3(a, b ^ 0x8000_0000));
        }
    }
    for &a in &grid64() {
        for &b in &grid64() {
            assert_eq!(__subdf3(a, b), __adddf3(a, b ^ 0x8000_0000_0000_0000));
        }
    }
}
