//! Scenario tests for the conversion engine: exactness, round-to-nearest-even
//! on wide magnitudes, truncation toward zero, saturation, and round trips.

use softfloat::conversion::{
    __fixdfdi, __fixdfsi, __fixdfti, __fixsfdi, __fixsfsi, __fixsfti, __fixunsdfdi,
    __fixunsdfsi, __fixunsdfti, __fixunssfdi, __fixunssfsi, __fixunssfti, __floatdidf,
    __floatsidf, __floatsisf, __floatundidf, __floatundisf, __floatunsidf, __floatunsisf,
};

#[test]
fn int_to_float_exact() {
    assert_eq!(__floatsisf(0), 0);
    assert_eq!(__floatsisf(1), 1.0f32.to_bits());
    assert_eq!(__floatsisf(-1), (-1.0f32).to_bits());
    assert_eq!(__floatsisf(12_345_678), 0x4B3C_614E);
    assert_eq!(__floatsidf(-987_654_321), 0xC1CD_6F34_5880_0000u64);
    assert_eq!(__floatdidf(0), 0);
    assert_eq!(__floatunsisf(0), 0);
    assert_eq!(__floatundidf(1 << 52), (4503599627370496.0f64).to_bits());
}

#[test]
fn int_to_float_rounding() {
    // A 32-bit magnitude wider than the single-width significand rounds to
    // nearest even.
    assert_eq!(__floatunsisf(0xFFFF_FF01), 0x4F7F_FFFF);
    assert_eq!(__floatundisf(0xFFFF_FFFF_FFFF_FC00), 0x5F80_0000);
    // Compare against the host conversions over a spread of values.
    let samples_i32: [i32; 9] = [
        i32::MIN,
        i32::MAX,
        -1,
        1,
        0x00FF_FFFF,
        -0x0100_0001,
        0x7654_3210,
        -0x0FED_CBA9,
        33_554_433,
    ];
    for &n in &samples_i32 {
        assert_eq!(__floatsisf(n), (n as f32).to_bits(), "{n}");
        assert_eq!(__floatsidf(n), (n as f64).to_bits(), "{n}");
    }
    let samples_i64: [i64; 8] = [
        i64::MIN,
        i64::MAX,
        -1,
        (1 << 53) + 1,
        -(1 << 53) - 3,
        0x7FFF_FFFF_FFFF_FC01,
        -0x0012_3456_789A_BCDF,
        9_007_199_254_740_993,
    ];
    for &n in &samples_i64 {
        assert_eq!(__floatdidf(n), (n as f64).to_bits(), "{n}");
    }
    let samples_u64: [u64; 7] = [
        u64::MAX,
        1,
        (1 << 24) + 1,
        (1 << 53) + 1,
        0xFFFF_FFFF_FFFF_FBFF,
        0x8000_0000_0000_0001,
        0x0000_0001_0000_0001,
    ];
    for &n in &samples_u64 {
        assert_eq!(__floatundisf(n), (n as f32).to_bits(), "{n}");
        assert_eq!(__floatundidf(n), (n as f64).to_bits(), "{n}");
    }
    for &n in &[u32::MAX, 1u32, (1 << 24) + 1, 0x8000_0001] {
        assert_eq!(__floatunsisf(n), (n as f32).to_bits(), "{n}");
        assert_eq!(__floatunsidf(n), (n as f64).to_bits(), "{n}");
    }
}

#[test]
fn float_to_int_truncates() {
    assert_eq!(__fixsfsi(3.7f32.to_bits()), 3);
    assert_eq!(__fixsfsi((-3.7f32).to_bits()), -3);
    assert_eq!(__fixsfsi(0.999f32.to_bits()), 0);
    assert_eq!(__fixsfsi((-0.999f32).to_bits()), 0);
    assert_eq!(__fixdfdi(1.0e15f64.to_bits()), 1_000_000_000_000_000);
    assert_eq!(__fixdfsi((-12345.9f64).to_bits()), -12345);
    assert_eq!(__fixunssfsi(3.999f32.to_bits()), 3);
    assert_eq!(__fixunsdfdi(18446744073709549568.0f64.to_bits()), 18446744073709549568);
}

#[test]
fn float_to_int_saturates() {
    // A very large finite single-width value saturates a 32-bit signed target.
    assert_eq!(__fixsfsi(0x7F7F_FFFF), i32::MAX);
    assert_eq!(__fixsfsi(0xFF7F_FFFF), i32::MIN);
    // Infinities saturate too.
    assert_eq!(__fixsfsi(0xFF80_0000), i32::MIN);
    assert_eq!(__fixsfsi(0x7F80_0000), i32::MAX);
    assert_eq!(__fixsfdi(0x7F80_0000), i64::MAX);
    assert_eq!(__fixdfsi(0xFFF0_0000_0000_0000), i32::MIN);
    assert_eq!(__fixunssfsi(0x7F80_0000), u32::MAX);
    assert_eq!(__fixunsdfdi(0x7FF0_0000_0000_0000), u64::MAX);
    // Negative values saturate unsigned targets to zero.
    assert_eq!(__fixunssfsi((-3.5f32).to_bits()), 0);
    assert_eq!(__fixunsdfsi((-1.0f64).to_bits()), 0);
}

#[test]
fn float_to_int_nan_is_zero() {
    assert_eq!(__fixsfsi(0x7FC0_0000), 0);
    assert_eq!(__fixsfdi(0xFFC0_0001), 0);
    assert_eq!(__fixunssfsi(0x7FC0_0000), 0);
    assert_eq!(__fixunssfdi(0x7F80_0001), 0);
    assert_eq!(__fixdfsi(0x7FF8_0000_0000_0000), 0);
    assert_eq!(__fixdfdi(0xFFF8_0000_0000_0001), 0);
    assert_eq!(__fixunsdfsi(0x7FF8_0000_0000_0000), 0);
    assert_eq!(__fixunsdfdi(0x7FF0_0000_0000_0001), 0);
}

#[test]
fn float_to_int_matches_host() {
    let f32s: [f32; 10] = [
        0.0, -0.0, 0.5, -0.5, 123.456, -8_388_607.5, 2147483520.0, -2147483904.0, 1.0e20,
        -1.0e20,
    ];
    for &x in &f32s {
        let bits = x.to_bits();
        assert_eq!(__fixsfsi(bits), x as i32, "{x}");
        assert_eq!(__fixsfdi(bits), x as i64, "{x}");
        assert_eq!(__fixunssfsi(bits), x as u32, "{x}");
        assert_eq!(__fixunssfdi(bits), x as u64, "{x}");
    }
    let f64s: [f64; 10] = [
        0.0,
        -0.0,
        0.5,
        -123456789.123,
        4503599627370495.5,
        -4503599627370497.0,
        1.0e18,
        -1.0e18,
        3.0e9,
        5.0e19,
    ];
    for &x in &f64s {
        let bits = x.to_bits();
        assert_eq!(__fixdfsi(bits), x as i32, "{x}");
        assert_eq!(__fixdfdi(bits), x as i64, "{x}");
        assert_eq!(__fixunsdfsi(bits), x as u32, "{x}");
        assert_eq!(__fixunsdfdi(bits), x as u64, "{x}");
    }
}

#[test]
fn round_trip_within_precision() {
    for &n in &[0i32, 1, -1, 2, 77, -1234, 0x00FF_FFFF, -0x00FF_FFFF, 8_388_608, -8_388_609] {
        assert_eq!(__fixsfsi(__floatsisf(n)), n, "{n}");
    }
    for &n in &[
        0i64,
        1,
        -1,
        42,
        -99_999,
        (1i64 << 53) - 1,
        -(1i64 << 53) + 1,
        123_456_789_012_345,
    ] {
        assert_eq!(__fixdfdi(__floatdidf(n)), n, "{n}");
    }
}

#[test]
fn float_to_wide_int_matches_host() {
    let f32s: [f32; 8] = [0.0, -0.5, 123.456, 2147483520.0, 1.0e20, -1.0e20, 1.0e38, -3.0e38];
    for &x in &f32s {
        let bits = x.to_bits();
        assert_eq!(__fixsfti(bits), x as i128, "{x}");
        assert_eq!(__fixunssfti(bits), x as u128, "{x}");
    }
    let f64s: [f64; 8] = [0.0, -0.5, 1.0e18, -1.0e18, 5.0e19, 1.0e38, -1.0e38, 1.6e308];
    for &x in &f64s {
        let bits = x.to_bits();
        assert_eq!(__fixdfti(bits), x as i128, "{x}");
        assert_eq!(__fixunsdfti(bits), x as u128, "{x}");
    }
}

#[test]
fn float_to_wide_int_edges() {
    // NaN gives zero; infinities and out-of-range magnitudes saturate.
    assert_eq!(__fixsfti(0x7FC0_0000), 0);
    assert_eq!(__fixunsdfti(0x7FF8_0000_0000_0000), 0);
    assert_eq!(__fixsfti(0x7F80_0000), i128::MAX);
    assert_eq!(__fixsfti(0xFF80_0000), i128::MIN);
    assert_eq!(__fixunssfti(0x7F80_0000), u128::MAX);
    assert_eq!(__fixunssfti((-2.0f32).to_bits()), 0);
    assert_eq!(__fixdfti(0xFFF0_0000_0000_0000), i128::MIN);
    assert_eq!(__fixunsdfti(0x7FF0_0000_0000_0000), u128::MAX);
    // The largest single-width finite value exceeds the signed range but
    // fits the unsigned 128-bit target exactly.
    assert_eq!(__fixsfti(0x7F7F_FFFF), i128::MAX);
    assert_eq!(__fixunssfti(0x7F7F_FFFF), 0xFFFF_FF00_0000_0000_0000_0000_0000_0000u128);
}
