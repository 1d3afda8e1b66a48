//! Conversion engine: integer to floating and floating to integer.
//!
//! Integer to floating: the magnitude's significant digits are counted with
//! a leading-zero count; a magnitude wider than the target precision is
//! rounded to nearest even through a guard/round/sticky pattern, a narrower
//! one is shifted up exactly. Floating to integer truncates toward zero and
//! saturates: values below one (and negative values for unsigned targets)
//! give zero, values at or beyond the target's range give the extreme of the
//! matching sign, and NaN gives zero.
//!
//! Integer targets run up to 128 bits. Integer sources stop at 64 bits: the
//! significant-digit count rests on the leading-zeros specification, which
//! vstd carries only up to `u64`.

use vstd::prelude::*;

verus! {

use vstd::arithmetic::power2::pow2;
use vstd::std_specs::bits::{u64_leading_zeros, axiom_u64_leading_zeros};
use vstd::bits::{lemma_u32_shr_is_div, lemma_u32_shl_is_mul, lemma_u64_shr_is_div,
    lemma_u64_shl_is_mul};
use crate::bits32::{ABS32, SIGN32, SIG_MASK32, IMPLICIT32, EXP_MASK32, SIG_BITS32, BIAS32,
    biased_exp32, frac32, sign32, is_nan32, pack32, from_parts32, lemma_decompose32};
use crate::bits64::{ABS64, SIGN64, SIG_MASK64, IMPLICIT64, EXP_MASK64, SIG_BITS64, BIAS64,
    biased_exp64, frac64, sign64, is_nan64, pack64, from_parts64, lemma_decompose64};

/// The single-width pattern nearest to the integer `(-1)^neg * m`, rounding
/// to nearest even: the exact shifted magnitude when it fits the significand,
/// else the guard/round/sticky rounded form.
pub open spec fn itf32_spec(neg: bool, m: u64) -> u32 {
    if m == 0 {
        0u32
    } else {
        let sd = 64 - u64_leading_zeros(m);
        let e = sd - 1;
        if sd <= 24 {
            pack32(neg, (e + 127) as u32, (m << ((24 - sd) as u32)) as u32)
        } else {
            let a1: u64 = if sd == 25 {
                m << 1u32
            } else if sd == 26 {
                m
            } else {
                (m >> ((sd - 26) as u32)) | (if (m << ((90 - sd) as u32)) != 0 {
                    1u64
                } else {
                    0u64
                })
            };
            let a2 = a1 | (if a1 & 4 != 0 {
                1u64
            } else {
                0u64
            });
            let a3 = ((a2 + 1) as u64) >> 2u32;
            if a3 & (1u64 << 24u32) != 0 {
                pack32(neg, (e + 128) as u32, (a3 >> 1u32) as u32)
            } else {
                pack32(neg, (e + 127) as u32, a3 as u32)
            }
        }
    }
}

/// The double-width pattern nearest to `(-1)^neg * m`, as [`itf32_spec`].
pub open spec fn itf64_spec(neg: bool, m: u64) -> u64 {
    if m == 0 {
        0u64
    } else {
        let sd = 64 - u64_leading_zeros(m);
        let e = sd - 1;
        if sd <= 53 {
            pack64(neg, (e + 1023) as u64, m << ((53 - sd) as u32))
        } else {
            let a1: u64 = if sd == 54 {
                m << 1u32
            } else if sd == 55 {
                m
            } else {
                (m >> ((sd - 55) as u32)) | (if (m << ((119 - sd) as u32)) != 0 {
                    1u64
                } else {
                    0u64
                })
            };
            let a2 = a1 | (if a1 & 4 != 0 {
                1u64
            } else {
                0u64
            });
            let a3 = ((a2 + 1) as u64) >> 2u32;
            if a3 & (1u64 << 53u32) != 0 {
                pack64(neg, (e + 1024) as u64, a3 >> 1u32)
            } else {
                pack64(neg, (e + 1023) as u64, a3)
            }
        }
    }
}

/// The magnitude of a signed word, free of negation overflow at the minimum.
pub open spec fn mag_of_i32(i: i32) -> u64 {
    if i >= 0 {
        i as u64
    } else {
        (-(i as int)) as u64
    }
}

/// The magnitude of a signed double word.
pub open spec fn mag_of_i64(i: i64) -> u64 {
    if i >= 0 {
        i as u64
    } else {
        (-(i as int)) as u64
    }
}

/// Shared single-width core on a sign and a magnitude.
fn int_to_f32_core(neg: bool, m: u64) -> (r: u32)
    ensures
        r == itf32_spec(neg, m),
{
    if m == 0 {
        return 0u32;
    }
    let z: u32 = m.leading_zeros();
    proof {
        axiom_u64_leading_zeros(m);
    }
    let sd: u32 = 64 - z;
    let e: u32 = sd - 1;
    if sd <= 24 {
        let sig: u32 = #[verifier::truncate] ((m << (24 - sd)) as u32);
        from_parts32(neg, e + 127, sig)
    } else {
        let a1: u64 = if sd == 25 {
            m << 1u32
        } else if sd == 26 {
            m
        } else {
            let st: u64 = if (m << (90 - sd)) != 0 {
                1u64
            } else {
                0u64
            };
            (m >> (sd - 26)) | st
        };
        proof {
            if z >= 1 {
                assert(m >> ((64 - z) as u32) == 0);
            }
            assert(a1 < 0x0400_0000u64 && (a1 | 1) < 0x0400_0000u64 && (a1 | 0) < 0x0400_0000u64) by (bit_vector)
                requires
                    25 <= sd <= 64,
                    sd + z == 64,
                    (z >= 1 ==> m >> sd == 0),
                    a1 == (if sd == 25 {
                        m << 1u32
                    } else if sd == 26 {
                        m
                    } else {
                        (m >> ((sd - 26) as u32)) | (if (m << ((90 - sd) as u32)) != 0 {
                            1u64
                        } else {
                            0u64
                        })
                    }),
            ;
        }
        let a2: u64 = a1 | (if a1 & 4 != 0 {
            1u64
        } else {
            0u64
        });
        let a3: u64 = (a2 + 1) >> 2;
        if a3 & (1u64 << 24u32) != 0 {
            let sig: u32 = #[verifier::truncate] ((a3 >> 1u32) as u32);
            from_parts32(neg, e + 128, sig)
        } else {
            let sig: u32 = #[verifier::truncate] (a3 as u32);
            from_parts32(neg, e + 127, sig)
        }
    }
}

/// Shared double-width core on a sign and a magnitude.
fn int_to_f64_core(neg: bool, m: u64) -> (r: u64)
    ensures
        r == itf64_spec(neg, m),
{
    if m == 0 {
        return 0u64;
    }
    let z: u32 = m.leading_zeros();
    proof {
        axiom_u64_leading_zeros(m);
    }
    let sd: u32 = 64 - z;
    let e: u32 = sd - 1;
    if sd <= 53 {
        from_parts64(neg, (e + 1023) as u64, m << (53 - sd))
    } else {
        let a1: u64 = if sd == 54 {
            m << 1u32
        } else if sd == 55 {
            m
        } else {
            let st: u64 = if (m << (119 - sd)) != 0 {
                1u64
            } else {
                0u64
            };
            (m >> (sd - 55)) | st
        };
        proof {
            if z >= 1 {
                assert(m >> ((64 - z) as u32) == 0);
            }
            assert(a1 < 0x0080_0000_0000_0000u64 && (a1 | 1) < 0x0080_0000_0000_0000u64 && (a1 | 0)
                < 0x0080_0000_0000_0000u64)
                by (bit_vector)
                requires
                    54 <= sd <= 64,
                    sd + z == 64,
                    (z >= 1 ==> m >> sd == 0),
                    a1 == (if sd == 54 {
                        m << 1u32
                    } else if sd == 55 {
                        m
                    } else {
                        (m >> ((sd - 55) as u32)) | (if (m << ((119 - sd) as u32)) != 0 {
                            1u64
                        } else {
                            0u64
                        })
                    }),
            ;
        }
        let a2: u64 = a1 | (if a1 & 4 != 0 {
            1u64
        } else {
            0u64
        });
        let a3: u64 = (a2 + 1) >> 2;
        if a3 & (1u64 << 53u32) != 0 {
            from_parts64(neg, (e + 1024) as u64, a3 >> 1u32)
        } else {
            from_parts64(neg, (e + 1023) as u64, a3)
        }
    }
}

/// Signed word to single width.
pub fn __floatsisf(i: i32) -> (r: u32)
    ensures
        r == itf32_spec(i < 0, mag_of_i32(i)),
{
    let m: u64 = if i >= 0 {
        i as u64
    } else {
        (-(i as i64)) as u64
    };
    int_to_f32_core(i < 0, m)
}

/// Signed word to double width.
pub fn __floatsidf(i: i32) -> (r: u64)
    ensures
        r == itf64_spec(i < 0, mag_of_i32(i)),
{
    let m: u64 = if i >= 0 {
        i as u64
    } else {
        (-(i as i64)) as u64
    };
    int_to_f64_core(i < 0, m)
}

/// Signed double word to double width.
pub fn __floatdidf(i: i64) -> (r: u64)
    ensures
        r == itf64_spec(i < 0, mag_of_i64(i)),
{
    let m: u64 = if i >= 0 {
        i as u64
    } else {
        (-(i as i128)) as u64
    };
    int_to_f64_core(i < 0, m)
}

/// Unsigned word to single width.
pub fn __floatunsisf(i: u32) -> (r: u32)
    ensures
        r == itf32_spec(false, i as u64),
{
    int_to_f32_core(false, i as u64)
}

/// Unsigned word to double width.
pub fn __floatunsidf(i: u32) -> (r: u64)
    ensures
        r == itf64_spec(false, i as u64),
{
    int_to_f64_core(false, i as u64)
}

/// Unsigned double word to single width.
pub fn __floatundisf(i: u64) -> (r: u32)
    ensures
        r == itf32_spec(false, i),
{
    int_to_f32_core(false, i)
}

/// Unsigned double word to double width.
pub fn __floatundidf(i: u64) -> (r: u64)
    ensures
        r == itf64_spec(false, i),
{
    int_to_f64_core(false, i)
}

/// The magnitude of a finite single-width pattern truncated toward zero:
/// the significand (with its implicit bit) scaled by the unbiased exponent.
pub open spec fn trunc_mag32(x: u32) -> int {
    let e = biased_exp32(x) - 127;
    let sig = (frac32(x) | IMPLICIT32) as int;
    if e < 23 {
        sig / (pow2((23 - e) as nat) as int)
    } else {
        sig * (pow2((e - 23) as nat) as int)
    }
}

/// The magnitude of a finite double-width pattern truncated toward zero.
pub open spec fn trunc_mag64(x: u64) -> int {
    let e = biased_exp64(x) - 1023;
    let sig = (frac64(x) | IMPLICIT64) as int;
    if e < 52 {
        sig / (pow2((52 - e) as nat) as int)
    } else {
        sig * (pow2((e - 52) as nat) as int)
    }
}

/// Monotonicity of powers of two, in the non-strict form the shift bounds
/// here need.
proof fn lemma_pow2_le(d: nat, c: nat)
    requires
        d <= c,
    ensures
        pow2(d) <= pow2(c),
{
    if d < c {
        vstd::arithmetic::power2::lemma_pow2_strictly_increases(d, c);
    }
}

/// Single width to signed word, truncating toward zero with saturation.
pub fn __fixsfsi(x: u32) -> (r: i32)
    ensures
        is_nan32(x) ==> r == 0,
        !is_nan32(x) && biased_exp32(x) < BIAS32 ==> r == 0,
        !is_nan32(x) && biased_exp32(x) >= BIAS32 + 31 ==> r == (if sign32(x) != 0 {
            i32::MIN
        } else {
            i32::MAX
        }),
        !is_nan32(x) && BIAS32 <= biased_exp32(x) < BIAS32 + 31 ==> r as int == (if sign32(x)
            != 0 {
            -trunc_mag32(x)
        } else {
            trunc_mag32(x)
        }),
{
    proof {
        lemma_decompose32(x);
    }
    let abs: u32 = x & ABS32;
    if abs > EXP_MASK32 {
        return 0i32;
    }
    let neg: bool = (x & SIGN32) != 0;
    let be: u32 = abs >> SIG_BITS32;
    if be < 127 {
        return 0i32;
    }
    if be >= 127 + 31 {
        return if neg {
            i32::MIN
        } else {
            i32::MAX
        };
    }
    let e: u32 = be - 127;
    let sig: u32 = (abs & SIG_MASK32) | IMPLICIT32;
    let t: u32 = if e < 23 {
        proof {
            lemma_u32_shr_is_div(sig, (23 - e) as u32);
            vstd::arithmetic::power2::lemma_pow2_pos((23 - e) as nat);
            vstd::arithmetic::div_mod::lemma_div_nonincreasing(
                sig as int,
                pow2((23 - e) as nat) as int,
            );
        }
        sig >> (23 - e)
    } else {
        proof {
            vstd::arithmetic::power2::lemma2_to64();
            lemma_pow2_le((e - 23) as nat, 7nat);
            vstd::arithmetic::mul::lemma_mul_inequality(
                pow2((e - 23) as nat) as int,
                pow2(7nat) as int,
                sig as int,
            );
            vstd::arithmetic::mul::lemma_mul_is_commutative(sig as int, pow2((e - 23) as nat) as int);
            vstd::arithmetic::mul::lemma_mul_is_commutative(sig as int, pow2(7nat) as int);
            lemma_u32_shl_is_mul(sig, (e - 23) as u32);
        }
        sig << (e - 23)
    };
    if neg {
        -(t as i32)
    } else {
        t as i32
    }
}

/// Single width to signed double word.
pub fn __fixsfdi(x: u32) -> (r: i64)
    ensures
        is_nan32(x) ==> r == 0,
        !is_nan32(x) && biased_exp32(x) < BIAS32 ==> r == 0,
        !is_nan32(x) && biased_exp32(x) >= BIAS32 + 63 ==> r == (if sign32(x) != 0 {
            i64::MIN
        } else {
            i64::MAX
        }),
        !is_nan32(x) && BIAS32 <= biased_exp32(x) < BIAS32 + 63 ==> r as int == (if sign32(x)
            != 0 {
            -trunc_mag32(x)
        } else {
            trunc_mag32(x)
        }),
{
    proof {
        lemma_decompose32(x);
    }
    let abs: u32 = x & ABS32;
    if abs > EXP_MASK32 {
        return 0i64;
    }
    let neg: bool = (x & SIGN32) != 0;
    let be: u32 = abs >> SIG_BITS32;
    if be < 127 {
        return 0i64;
    }
    if be >= 127 + 63 {
        return if neg {
            i64::MIN
        } else {
            i64::MAX
        };
    }
    let e: u32 = be - 127;
    let sig: u32 = (abs & SIG_MASK32) | IMPLICIT32;
    let t: u64 = if e < 23 {
        proof {
            lemma_u32_shr_is_div(sig, (23 - e) as u32);
            vstd::arithmetic::power2::lemma_pow2_pos((23 - e) as nat);
            vstd::arithmetic::div_mod::lemma_div_nonincreasing(
                sig as int,
                pow2((23 - e) as nat) as int,
            );
        }
        (sig >> (23 - e)) as u64
    } else {
        proof {
            vstd::arithmetic::power2::lemma2_to64();
            vstd::arithmetic::power2::lemma2_to64_rest();
            lemma_pow2_le((e - 23) as nat, 39nat);
            vstd::arithmetic::mul::lemma_mul_inequality(
                pow2((e - 23) as nat) as int,
                pow2(39nat) as int,
                sig as int,
            );
            vstd::arithmetic::mul::lemma_mul_is_commutative(sig as int, pow2((e - 23) as nat) as int);
            vstd::arithmetic::mul::lemma_mul_is_commutative(sig as int, pow2(39nat) as int);
            lemma_u64_shl_is_mul(sig as u64, (e - 23) as u64);
        }
        (sig as u64) << (e - 23)
    };
    if neg {
        -(t as i64)
    } else {
        t as i64
    }
}

/// Single width to unsigned word: negative values give zero.
pub fn __fixunssfsi(x: u32) -> (r: u32)
    ensures
        is_nan32(x) ==> r == 0,
        !is_nan32(x) && sign32(x) != 0 ==> r == 0,
        !is_nan32(x) && sign32(x) == 0 && biased_exp32(x) < BIAS32 ==> r == 0,
        !is_nan32(x) && sign32(x) == 0 && biased_exp32(x) >= BIAS32 + 32 ==> r == u32::MAX,
        !is_nan32(x) && sign32(x) == 0 && BIAS32 <= biased_exp32(x) < BIAS32 + 32 ==> r as int
            == trunc_mag32(x),
{
    proof {
        lemma_decompose32(x);
    }
    let abs: u32 = x & ABS32;
    if abs > EXP_MASK32 {
        return 0u32;
    }
    if (x & SIGN32) != 0 {
        return 0u32;
    }
    let be: u32 = abs >> SIG_BITS32;
    if be < 127 {
        return 0u32;
    }
    if be >= 127 + 32 {
        return u32::MAX;
    }
    let e: u32 = be - 127;
    let sig: u32 = (abs & SIG_MASK32) | IMPLICIT32;
    if e < 23 {
        proof {
            lemma_u32_shr_is_div(sig, (23 - e) as u32);
        }
        sig >> (23 - e)
    } else {
        proof {
            vstd::arithmetic::power2::lemma2_to64();
            lemma_pow2_le((e - 23) as nat, 8nat);
            vstd::arithmetic::mul::lemma_mul_inequality(
                pow2((e - 23) as nat) as int,
                pow2(8nat) as int,
                sig as int,
            );
            vstd::arithmetic::mul::lemma_mul_is_commutative(sig as int, pow2((e - 23) as nat) as int);
            vstd::arithmetic::mul::lemma_mul_is_commutative(sig as int, pow2(8nat) as int);
            lemma_u32_shl_is_mul(sig, (e - 23) as u32);
        }
        sig << (e - 23)
    }
}

/// Single width to unsigned double word.
pub fn __fixunssfdi(x: u32) -> (r: u64)
    ensures
        is_nan32(x) ==> r == 0,
        !is_nan32(x) && sign32(x) != 0 ==> r == 0,
        !is_nan32(x) && sign32(x) == 0 && biased_exp32(x) < BIAS32 ==> r == 0,
        !is_nan32(x) && sign32(x) == 0 && biased_exp32(x) >= BIAS32 + 64 ==> r == u64::MAX,
        !is_nan32(x) && sign32(x) == 0 && BIAS32 <= biased_exp32(x) < BIAS32 + 64 ==> r as int
            == trunc_mag32(x),
{
    proof {
        lemma_decompose32(x);
    }
    let abs: u32 = x & ABS32;
    if abs > EXP_MASK32 {
        return 0u64;
    }
    if (x & SIGN32) != 0 {
        return 0u64;
    }
    let be: u32 = abs >> SIG_BITS32;
    if be < 127 {
        return 0u64;
    }
    if be >= 127 + 64 {
        return u64::MAX;
    }
    let e: u32 = be - 127;
    let sig: u32 = (abs & SIG_MASK32) | IMPLICIT32;
    if e < 23 {
        proof {
            lemma_u32_shr_is_div(sig, (23 - e) as u32);
        }
        (sig >> (23 - e)) as u64
    } else {
        proof {
            vstd::arithmetic::power2::lemma2_to64();
            vstd::arithmetic::power2::lemma2_to64_rest();
            lemma_pow2_le((e - 23) as nat, 40nat);
            vstd::arithmetic::mul::lemma_mul_inequality(
                pow2((e - 23) as nat) as int,
                pow2(40nat) as int,
                sig as int,
            );
            vstd::arithmetic::mul::lemma_mul_is_commutative(sig as int, pow2((e - 23) as nat) as int);
            vstd::arithmetic::mul::lemma_mul_is_commutative(sig as int, pow2(40nat) as int);
            lemma_u64_shl_is_mul(sig as u64, (e - 23) as u64);
        }
        (sig as u64) << (e - 23)
    }
}

/// Double width to signed word.
pub fn __fixdfsi(x: u64) -> (r: i32)
    ensures
        is_nan64(x) ==> r == 0,
        !is_nan64(x) && biased_exp64(x) < BIAS64 ==> r == 0,
        !is_nan64(x) && biased_exp64(x) >= BIAS64 + 31 ==> r == (if sign64(x) != 0 {
            i32::MIN
        } else {
            i32::MAX
        }),
        !is_nan64(x) && BIAS64 <= biased_exp64(x) < BIAS64 + 31 ==> r as int == (if sign64(x)
            != 0 {
            -trunc_mag64(x)
        } else {
            trunc_mag64(x)
        }),
{
    proof {
        lemma_decompose64(x);
    }
    let abs: u64 = x & ABS64;
    if abs > EXP_MASK64 {
        return 0i32;
    }
    let neg: bool = (x & SIGN64) != 0;
    let be: u64 = abs >> SIG_BITS64;
    if be < 1023 {
        return 0i32;
    }
    if be >= 1023 + 31 {
        return if neg {
            i32::MIN
        } else {
            i32::MAX
        };
    }
    let e: u32 = (be - 1023) as u32;
    let sig: u64 = (abs & SIG_MASK64) | IMPLICIT64;
    proof {
        lemma_u64_shr_is_div(sig, (52 - e) as u64);
        vstd::arithmetic::power2::lemma2_to64();
        lemma_pow2_le(22nat, (52 - e) as nat);
        vstd::arithmetic::div_mod::lemma_div_is_ordered_by_denominator(
            sig as int,
            pow2(22nat) as int,
            pow2((52 - e) as nat) as int,
        );
    }
    let t: u64 = sig >> (52 - e);
    if neg {
        -((t as u32) as i32)
    } else {
        (t as u32) as i32
    }
}

/// Double width to signed double word.
pub fn __fixdfdi(x: u64) -> (r: i64)
    ensures
        is_nan64(x) ==> r == 0,
        !is_nan64(x) && biased_exp64(x) < BIAS64 ==> r == 0,
        !is_nan64(x) && biased_exp64(x) >= BIAS64 + 63 ==> r == (if sign64(x) != 0 {
            i64::MIN
        } else {
            i64::MAX
        }),
        !is_nan64(x) && BIAS64 <= biased_exp64(x) < BIAS64 + 63 ==> r as int == (if sign64(x)
            != 0 {
            -trunc_mag64(x)
        } else {
            trunc_mag64(x)
        }),
{
    proof {
        lemma_decompose64(x);
    }
    let abs: u64 = x & ABS64;
    if abs > EXP_MASK64 {
        return 0i64;
    }
    let neg: bool = (x & SIGN64) != 0;
    let be: u64 = abs >> SIG_BITS64;
    if be < 1023 {
        return 0i64;
    }
    if be >= 1023 + 63 {
        return if neg {
            i64::MIN
        } else {
            i64::MAX
        };
    }
    let e: u32 = (be - 1023) as u32;
    let sig: u64 = (abs & SIG_MASK64) | IMPLICIT64;
    let t: u64 = if e < 52 {
        proof {
            lemma_u64_shr_is_div(sig, (52 - e) as u64);
            vstd::arithmetic::power2::lemma_pow2_pos((52 - e) as nat);
            vstd::arithmetic::div_mod::lemma_div_nonincreasing(
                sig as int,
                pow2((52 - e) as nat) as int,
            );
        }
        sig >> (52 - e)
    } else {
        proof {
            vstd::arithmetic::power2::lemma2_to64();
            lemma_pow2_le((e - 52) as nat, 10nat);
            vstd::arithmetic::mul::lemma_mul_inequality(
                pow2((e - 52) as nat) as int,
                pow2(10nat) as int,
                sig as int,
            );
            vstd::arithmetic::mul::lemma_mul_is_commutative(sig as int, pow2((e - 52) as nat) as int);
            vstd::arithmetic::mul::lemma_mul_is_commutative(sig as int, pow2(10nat) as int);
            lemma_u64_shl_is_mul(sig, (e - 52) as u64);
        }
        sig << (e - 52)
    };
    if neg {
        -(t as i64)
    } else {
        t as i64
    }
}

/// Double width to unsigned word.
pub fn __fixunsdfsi(x: u64) -> (r: u32)
    ensures
        is_nan64(x) ==> r == 0,
        !is_nan64(x) && sign64(x) != 0 ==> r == 0,
        !is_nan64(x) && sign64(x) == 0 && biased_exp64(x) < BIAS64 ==> r == 0,
        !is_nan64(x) && sign64(x) == 0 && biased_exp64(x) >= BIAS64 + 32 ==> r == u32::MAX,
        !is_nan64(x) && sign64(x) == 0 && BIAS64 <= biased_exp64(x) < BIAS64 + 32 ==> r as int
            == trunc_mag64(x),
{
    proof {
        lemma_decompose64(x);
    }
    let abs: u64 = x & ABS64;
    if abs > EXP_MASK64 {
        return 0u32;
    }
    if (x & SIGN64) != 0 {
        return 0u32;
    }
    let be: u64 = abs >> SIG_BITS64;
    if be < 1023 {
        return 0u32;
    }
    if be >= 1023 + 32 {
        return u32::MAX;
    }
    let e: u32 = (be - 1023) as u32;
    let sig: u64 = (abs & SIG_MASK64) | IMPLICIT64;
    proof {
        lemma_u64_shr_is_div(sig, (52 - e) as u64);
        vstd::arithmetic::power2::lemma2_to64();
        lemma_pow2_le(21nat, (52 - e) as nat);
        vstd::arithmetic::div_mod::lemma_div_is_ordered_by_denominator(
            sig as int,
            pow2(21nat) as int,
            pow2((52 - e) as nat) as int,
        );
    }
    let t: u64 = sig >> (52 - e);
    t as u32
}

/// Double width to unsigned double word.
pub fn __fixunsdfdi(x: u64) -> (r: u64)
    ensures
        is_nan64(x) ==> r == 0,
        !is_nan64(x) && sign64(x) != 0 ==> r == 0,
        !is_nan64(x) && sign64(x) == 0 && biased_exp64(x) < BIAS64 ==> r == 0,
        !is_nan64(x) && sign64(x) == 0 && biased_exp64(x) >= BIAS64 + 64 ==> r == u64::MAX,
        !is_nan64(x) && sign64(x) == 0 && BIAS64 <= biased_exp64(x) < BIAS64 + 64 ==> r as int
            == trunc_mag64(x),
{
    proof {
        lemma_decompose64(x);
    }
    let abs: u64 = x & ABS64;
    if abs > EXP_MASK64 {
        return 0u64;
    }
    if (x & SIGN64) != 0 {
        return 0u64;
    }
    let be: u64 = abs >> SIG_BITS64;
    if be < 1023 {
        return 0u64;
    }
    if be >= 1023 + 64 {
        return u64::MAX;
    }
    let e: u32 = (be - 1023) as u32;
    let sig: u64 = (abs & SIG_MASK64) | IMPLICIT64;
    if e < 52 {
        proof {
            lemma_u64_shr_is_div(sig, (52 - e) as u64);
        }
        sig >> (52 - e)
    } else {
        proof {
            vstd::arithmetic::power2::lemma2_to64();
            lemma_pow2_le((e - 52) as nat, 11nat);
            vstd::arithmetic::mul::lemma_mul_inequality(
                pow2((e - 52) as nat) as int,
                pow2(11nat) as int,
                sig as int,
            );
            vstd::arithmetic::mul::lemma_mul_is_commutative(sig as int, pow2((e - 52) as nat) as int);
            vstd::arithmetic::mul::lemma_mul_is_commutative(sig as int, pow2(11nat) as int);
            lemma_u64_shl_is_mul(sig, (e - 52) as u64);
        }
        sig << (e - 52)
    }
}


/// Monotonicity in the other direction, for the wide shifts: a power of two
/// below the 128-bit width fits the wide word.
proof fn lemma_u128_pow2_fits(n: nat)
    requires
        n < 128,
    ensures
        0 < pow2(n),
        pow2(n) <= 0x8000_0000_0000_0000_0000_0000_0000_0000,
{
    vstd::arithmetic::power2::lemma_pow2_pos(n);
    vstd::arithmetic::power2::lemma2_to64();
    vstd::arithmetic::power2::lemma2_to64_rest();
    vstd::arithmetic::power2::lemma_pow2_adds(64nat, 63nat);
    if n < 127 {
        vstd::arithmetic::power2::lemma_pow2_strictly_increases(n, 127nat);
    }
}

/// Shifting a wide word left is multiplication by the matching power of two,
/// provided the product fits.
proof fn lemma_u128_shl_is_mul(x: u128, shift: u32)
    requires
        shift < 128,
        x * pow2(shift as nat) <= u128::MAX,
    ensures
        x << shift == x * pow2(shift as nat),
    decreases shift,
{
    lemma_u128_pow2_fits(shift as nat);
    if shift == 0 {
        assert(x << 0u32 == x) by (bit_vector);
        vstd::arithmetic::power2::lemma2_to64();
    } else {
        assert((x * pow2((shift - 1) as nat)) * 2 == x * pow2(shift as nat)) by {
            vstd::arithmetic::power2::lemma_pow2_unfold(shift as nat);
            vstd::arithmetic::mul::lemma_mul_is_associative(
                x as int,
                pow2((shift - 1) as nat) as int,
                2,
            );
            vstd::arithmetic::mul::lemma_mul_is_commutative(
                pow2((shift - 1) as nat) as int,
                2,
            );
        }
        lemma_u128_shl_is_mul(x, (shift - 1) as u32);
        assert((x << ((shift - 1) as u32)) < 0x8000_0000_0000_0000_0000_0000_0000_0000u128);
        assert((x << shift) == ((x << ((shift - 1) as u32)) * 2)) by (bit_vector)
            requires
                0 < shift < 128,
                (x << ((shift - 1) as u32)) < 0x8000_0000_0000_0000_0000_0000_0000_0000u128,
        ;
    }
}

/// Scaling a significand into a 128-bit target stays within the target: the
/// product against the power of two is pinned and bounded.
proof fn lemma_scale_into_wide(sig: u64, c: u32, sig_width: nat)
    requires
        0 < sig_width <= 64,
        sig < pow2(sig_width),
        c as nat + sig_width <= 128,
    ensures
        (sig as u128) << c == sig * pow2(c as nat),
        sig * pow2(c as nat) < pow2((c as nat + sig_width) as nat),
{
    vstd::arithmetic::power2::lemma_pow2_pos(c as nat);
    assert(sig * pow2(c as nat) < pow2(sig_width) * pow2(c as nat)) by {
        vstd::arithmetic::mul::lemma_mul_strict_inequality(
            sig as int,
            pow2(sig_width) as int,
            pow2(c as nat) as int,
        );
    }
    vstd::arithmetic::power2::lemma_pow2_adds(sig_width, c as nat);
    if (c as nat + sig_width) < 128 {
        lemma_u128_pow2_fits((c as nat + sig_width) as nat);
    } else {
        vstd::arithmetic::power2::lemma2_to64();
        vstd::arithmetic::power2::lemma_pow2_adds(64nat, 64nat);
    }
    lemma_u128_shl_is_mul(sig as u128, c);
}

/// Single width to a signed wide word, truncating toward zero with
/// saturation.
pub fn __fixsfti(x: u32) -> (r: i128)
    ensures
        is_nan32(x) ==> r == 0,
        !is_nan32(x) && biased_exp32(x) < BIAS32 ==> r == 0,
        !is_nan32(x) && biased_exp32(x) >= BIAS32 + 127 ==> r == (if sign32(x) != 0 {
            i128::MIN
        } else {
            i128::MAX
        }),
        !is_nan32(x) && BIAS32 <= biased_exp32(x) < BIAS32 + 127 ==> r as int == (if sign32(x)
            != 0 {
            -trunc_mag32(x)
        } else {
            trunc_mag32(x)
        }),
{
    proof {
        lemma_decompose32(x);
    }
    let abs: u32 = x & ABS32;
    if abs > EXP_MASK32 {
        return 0i128;
    }
    let neg: bool = (x & SIGN32) != 0;
    let be: u32 = abs >> SIG_BITS32;
    if be < 127 {
        return 0i128;
    }
    if be >= 127 + 127 {
        return if neg {
            i128::MIN
        } else {
            i128::MAX
        };
    }
    let e: u32 = be - 127;
    let sig: u32 = (abs & SIG_MASK32) | IMPLICIT32;
    let t: u128 = if e < 23 {
        proof {
            lemma_u32_shr_is_div(sig, (23 - e) as u32);
        }
        (sig >> (23 - e)) as u128
    } else {
        proof {
            vstd::arithmetic::power2::lemma2_to64();
            vstd::arithmetic::power2::lemma2_to64_rest();
            vstd::arithmetic::power2::lemma_pow2_adds(64nat, 63nat);
            lemma_scale_into_wide(sig as u64, (e - 23) as u32, 24nat);
            lemma_pow2_le((e + 1) as nat, 127nat);
        }
        (sig as u128) << (e - 23)
    };
    if neg {
        -(t as i128)
    } else {
        t as i128
    }
}

/// Single width to an unsigned wide word.
pub fn __fixunssfti(x: u32) -> (r: u128)
    ensures
        is_nan32(x) ==> r == 0,
        !is_nan32(x) && sign32(x) != 0 ==> r == 0,
        !is_nan32(x) && sign32(x) == 0 && biased_exp32(x) < BIAS32 ==> r == 0,
        !is_nan32(x) && sign32(x) == 0 && biased_exp32(x) >= BIAS32 + 128 ==> r == u128::MAX,
        !is_nan32(x) && sign32(x) == 0 && BIAS32 <= biased_exp32(x) < BIAS32 + 128 ==> r as int
            == trunc_mag32(x),
{
    proof {
        lemma_decompose32(x);
    }
    let abs: u32 = x & ABS32;
    if abs > EXP_MASK32 {
        return 0u128;
    }
    if (x & SIGN32) != 0 {
        return 0u128;
    }
    let be: u32 = abs >> SIG_BITS32;
    if be < 127 {
        return 0u128;
    }
    if be >= 127 + 128 {
        return u128::MAX;
    }
    let e: u32 = be - 127;
    let sig: u32 = (abs & SIG_MASK32) | IMPLICIT32;
    if e < 23 {
        proof {
            lemma_u32_shr_is_div(sig, (23 - e) as u32);
        }
        (sig >> (23 - e)) as u128
    } else {
        proof {
            vstd::arithmetic::power2::lemma2_to64();
            vstd::arithmetic::power2::lemma2_to64_rest();
            lemma_scale_into_wide(sig as u64, (e - 23) as u32, 24nat);
        }
        (sig as u128) << (e - 23)
    }
}

/// Double width to a signed wide word.
pub fn __fixdfti(x: u64) -> (r: i128)
    ensures
        is_nan64(x) ==> r == 0,
        !is_nan64(x) && biased_exp64(x) < BIAS64 ==> r == 0,
        !is_nan64(x) && biased_exp64(x) >= BIAS64 + 127 ==> r == (if sign64(x) != 0 {
            i128::MIN
        } else {
            i128::MAX
        }),
        !is_nan64(x) && BIAS64 <= biased_exp64(x) < BIAS64 + 127 ==> r as int == (if sign64(x)
            != 0 {
            -trunc_mag64(x)
        } else {
            trunc_mag64(x)
        }),
{
    proof {
        lemma_decompose64(x);
    }
    let abs: u64 = x & ABS64;
    if abs > EXP_MASK64 {
        return 0i128;
    }
    let neg: bool = (x & SIGN64) != 0;
    let be: u64 = abs >> SIG_BITS64;
    if be < 1023 {
        return 0i128;
    }
    if be >= 1023 + 127 {
        return if neg {
            i128::MIN
        } else {
            i128::MAX
        };
    }
    let e: u32 = (be - 1023) as u32;
    let sig: u64 = (abs & SIG_MASK64) | IMPLICIT64;
    let t: u128 = if e < 52 {
        proof {
            lemma_u64_shr_is_div(sig, (52 - e) as u64);
        }
        (sig >> (52 - e)) as u128
    } else {
        proof {
            vstd::arithmetic::power2::lemma2_to64();
            vstd::arithmetic::power2::lemma2_to64_rest();
            vstd::arithmetic::power2::lemma_pow2_adds(64nat, 63nat);
            lemma_scale_into_wide(sig, (e - 52) as u32, 53nat);
            lemma_pow2_le((e + 1) as nat, 127nat);
        }
        (sig as u128) << (e - 52)
    };
    if neg {
        -(t as i128)
    } else {
        t as i128
    }
}

/// Double width to an unsigned wide word.
pub fn __fixunsdfti(x: u64) -> (r: u128)
    ensures
        is_nan64(x) ==> r == 0,
        !is_nan64(x) && sign64(x) != 0 ==> r == 0,
        !is_nan64(x) && sign64(x) == 0 && biased_exp64(x) < BIAS64 ==> r == 0,
        !is_nan64(x) && sign64(x) == 0 && biased_exp64(x) >= BIAS64 + 128 ==> r == u128::MAX,
        !is_nan64(x) && sign64(x) == 0 && BIAS64 <= biased_exp64(x) < BIAS64 + 128 ==> r as int
            == trunc_mag64(x),
{
    proof {
        lemma_decompose64(x);
    }
    let abs: u64 = x & ABS64;
    if abs > EXP_MASK64 {
        return 0u128;
    }
    if (x & SIGN64) != 0 {
        return 0u128;
    }
    let be: u64 = abs >> SIG_BITS64;
    if be < 1023 {
        return 0u128;
    }
    if be >= 1023 + 128 {
        return u128::MAX;
    }
    let e: u32 = (be - 1023) as u32;
    let sig: u64 = (abs & SIG_MASK64) | IMPLICIT64;
    if e < 52 {
        proof {
            lemma_u64_shr_is_div(sig, (52 - e) as u64);
        }
        (sig >> (52 - e)) as u128
    } else {
        proof {
            vstd::arithmetic::power2::lemma2_to64();
            vstd::arithmetic::power2::lemma2_to64_rest();
            lemma_scale_into_wide(sig, (e - 52) as u32, 53nat);
        }
        (sig as u128) << (e - 52)
    }
}

} // verus!
