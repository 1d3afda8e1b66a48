//! Format descriptor for the double-width (64-bit) floating encoding:
//! field constants, classification spec functions, and the bit-level helpers
//! for this width. The reciprocal approximation here runs its refinement
//! rounds in single words and finishes with one double-word round.

use vstd::prelude::*;

verus! {

use vstd::arithmetic::power2::pow2;
use vstd::bits::{lemma_u128_shr_is_div, lemma_u64_shr_is_div, lemma_u64_shl_is_mul};
use vstd::std_specs::bits::{u64_leading_zeros, axiom_u64_leading_zeros};
use vstd::wrapping::{u32_specs, u64_specs};
use crate::bits32::{recip_round32, wide_mul32};

/// Total bit width of the encoding.
pub const BITS64: u32 = 64;

/// Number of stored significand bits.
pub const SIG_BITS64: u32 = 52;

/// Number of exponent bits.
pub const EXP_BITS64: u32 = 11;

/// Largest biased exponent field value (all ones).
pub const EXP_MAX64: u64 = 2047;

/// Exponent bias.
pub const BIAS64: u64 = 1023;

/// Mask of the sign bit.
pub const SIGN64: u64 = 0x8000_0000_0000_0000;

/// Mask of everything but the sign bit.
pub const ABS64: u64 = 0x7FFF_FFFF_FFFF_FFFF;

/// Mask of the stored significand field.
pub const SIG_MASK64: u64 = 0x000F_FFFF_FFFF_FFFF;

/// Position of the implicit leading significand bit.
pub const IMPLICIT64: u64 = 0x0010_0000_0000_0000;

/// Mask of the exponent field; also the encoding of positive infinity.
pub const EXP_MASK64: u64 = 0x7FF0_0000_0000_0000;

/// The quiet-NaN bit.
pub const QUIET64: u64 = 0x0008_0000_0000_0000;

/// The canonical quiet NaN produced for invalid operations.
pub const QNAN64: u64 = 0x7FF8_0000_0000_0000;

/// Magnitude bits: the pattern with the sign bit cleared.
pub open spec fn abs64(x: u64) -> u64 {
    x & ABS64
}

/// The sign bit, isolated.
pub open spec fn sign64(x: u64) -> u64 {
    x & SIGN64
}

/// The biased exponent field.
pub open spec fn biased_exp64(x: u64) -> u64 {
    (x >> SIG_BITS64) & EXP_MAX64
}

/// The stored significand field (without the implicit bit).
pub open spec fn frac64(x: u64) -> u64 {
    x & SIG_MASK64
}

/// A NaN: exponent all ones and a nonzero significand.
pub open spec fn is_nan64(x: u64) -> bool {
    abs64(x) > EXP_MASK64
}

/// A quiet NaN: a NaN with the quiet bit set.
pub open spec fn is_quiet_nan64(x: u64) -> bool {
    is_nan64(x) && x & QUIET64 != 0
}

/// Positive or negative infinity.
pub open spec fn is_inf64(x: u64) -> bool {
    abs64(x) == EXP_MASK64
}

/// Positive or negative zero.
pub open spec fn is_zero64(x: u64) -> bool {
    abs64(x) == 0
}

/// Neither an infinity nor a NaN.
pub open spec fn is_finite64(x: u64) -> bool {
    abs64(x) < EXP_MASK64
}

/// Assembles sign, biased exponent and significand fields into a pattern.
pub open spec fn pack64(sign: bool, exponent: u64, significand: u64) -> u64 {
    (if sign {
        SIGN64
    } else {
        0u64
    }) | ((exponent << SIG_BITS64) & EXP_MASK64) | (significand & SIG_MASK64)
}

/// Exact classification check used by the engines.
pub fn nan64(x: u64) -> (b: bool)
    ensures
        b == is_nan64(x),
{
    (x & ABS64) > EXP_MASK64
}

/// Constructs a pattern from its parts, as [`pack64`] describes.
pub fn from_parts64(sign: bool, exponent: u64, significand: u64) -> (r: u64)
    ensures
        r == pack64(sign, exponent, significand),
{
    (if sign {
        SIGN64
    } else {
        0u64
    }) | ((exponent << SIG_BITS64) & EXP_MASK64) | (significand & SIG_MASK64)
}

/// Bitwise equality, except that any two NaNs compare equal.
pub fn eq_repr64(x: u64, y: u64) -> (b: bool)
    ensures
        b == if is_nan64(x) && is_nan64(y) {
            true
        } else {
            x == y
        },
{
    if nan64(x) && nan64(y) {
        true
    } else {
        x == y
    }
}

/// Left-shift amount that brings the leading one of `sig` to the implicit-bit
/// position, paired with the exponent adjustment `1 - shift`.
pub open spec fn normalize64_spec(sig: u64) -> (int, u64) {
    let z = u64_leading_zeros(sig);
    if z >= EXP_BITS64 + 1 {
        let shift = (z - EXP_BITS64) as u32;
        (1 - shift, sig << shift)
    } else {
        (1int, sig)
    }
}

/// What normalization does to a subnormal significand of this width.
pub proof fn lemma_normalize64_props(sig: u64)
    ensures
        0 < sig < IMPLICIT64 ==> {
            &&& (-51) <= normalize64_spec(sig).0 <= 0
            &&& IMPLICIT64 <= normalize64_spec(sig).1 < 2 * IMPLICIT64
            &&& normalize64_spec(sig).1 == sig * pow2((1 - normalize64_spec(sig).0) as nat)
        },
{
    axiom_u64_leading_zeros(sig);
    let z: u32 = u64_leading_zeros(sig) as u32;
    if 0 < sig < IMPLICIT64 {
        assert(z < 64);
        assert(sig >> ((64 - z) as u32) == 0 && (sig >> ((63 - z) as u32)) & 1 != 0);
        let shift: u32 = (z - EXP_BITS64) as u32;
        assert(((z <= 11 && (sig >> ((63 - z) as u32)) & 1 != 0) ==> sig
            >= 0x0010_0000_0000_0000u64) && ((12 <= z < 64 && sig >> ((64 - z) as u32) == 0 && (
        sig >> ((63 - z) as u32)) & 1 != 0) ==> 0x0010_0000_0000_0000u64 <= (sig << ((z
            - 11) as u32)) < 0x0020_0000_0000_0000 && sig < (1u64 << ((64 - z) as u32))))
            by (bit_vector);
        assert(z >= 12);
        assert(sig * pow2(shift as nat) < 0x0020_0000_0000_0000) by {
            assert(sig < (1u64 << ((64 - z) as u32)));
            assert((1u64 << ((64 - z) as u32)) == pow2((64 - z) as nat)) by {
                vstd::arithmetic::power2::lemma_pow2_pos((64 - z) as nat);
                vstd::bits::lemma_u64_pow2_no_overflow((64 - z) as nat);
                lemma_u64_shl_is_mul(1u64, (64 - z) as u64);
            }
            assert(sig * pow2(shift as nat) < pow2((64 - z) as nat) * pow2(shift as nat)) by {
                vstd::arithmetic::power2::lemma_pow2_pos(shift as nat);
                vstd::arithmetic::mul::lemma_mul_strict_inequality(
                    sig as int,
                    pow2((64 - z) as nat) as int,
                    pow2(shift as nat) as int,
                );
            }
            vstd::arithmetic::power2::lemma_pow2_adds((64 - z) as nat, shift as nat);
            vstd::arithmetic::power2::lemma2_to64();
            vstd::arithmetic::power2::lemma2_to64_rest();
        }
        vstd::arithmetic::power2::lemma2_to64();
        vstd::arithmetic::power2::lemma2_to64_rest();
        lemma_u64_shl_is_mul(sig, shift as u64);
    }
}

/// Renormalizes a subnormal significand for this width, as the single-width
/// version does.
pub fn normalize64(sig: u64) -> (r: (i32, u64))
    ensures
        r.0 == normalize64_spec(sig).0,
        r.1 == normalize64_spec(sig).1,
        0 < sig < IMPLICIT64 ==> {
            &&& (-51) <= r.0 <= 0
            &&& IMPLICIT64 <= r.1 < 2 * IMPLICIT64
            &&& r.1 == sig * pow2((1 - r.0) as nat)
        },
{
    proof {
        lemma_normalize64_props(sig);
        axiom_u64_leading_zeros(sig);
    }
    let z: u32 = sig.leading_zeros();
    if z >= EXP_BITS64 + 1 {
        let shift: u32 = z - EXP_BITS64;
        (1i32 - (shift as i32), sig << shift)
    } else {
        (1i32, sig)
    }
}

/// The exact double-width product of two words, as (high, low) halves.
pub open spec fn wide_mul64_spec(a: u64, b: u64) -> (u64, u64) {
    let p = (a as int) * (b as int);
    (((p / 0x1_0000_0000_0000_0000) as u64), ((p % 0x1_0000_0000_0000_0000) as u64))
}

/// Exact 128-bit product of two 64-bit words, split into high and low halves.
pub fn wide_mul64(a: u64, b: u64) -> (r: (u64, u64))
    ensures
        r == wide_mul64_spec(a, b),
        (r.0 as int) * 0x1_0000_0000_0000_0000 + (r.1 as int) == (a as int) * (b as int),
{
    proof {
        assert((a as u128) * (b as u128) <= 0xFFFF_FFFF_FFFF_FFFFu128
            * 0xFFFF_FFFF_FFFF_FFFFu128) by (nonlinear_arith)
            requires
                a <= 0xFFFF_FFFF_FFFF_FFFFu128,
                b <= 0xFFFF_FFFF_FFFF_FFFFu128,
        ;
    }
    let p: u128 = (a as u128) * (b as u128);
    let hi: u64 = (p >> 64u32) as u64;
    #[verifier::truncate]
    let lo: u64 = p as u64;
    proof {
        assert(p >> 64u32 <= 0xFFFF_FFFF_FFFF_FFFFu128 && (p >> 64u32) * 0x1_0000_0000_0000_0000
            + ((p as u64) as u128) == p) by (bit_vector);
        lemma_u128_shr_is_div(p, 64u128);
        vstd::arithmetic::power2::lemma2_to64();
        vstd::arithmetic::div_mod::lemma_fundamental_div_mod_converse(
            p as int,
            0x1_0000_0000_0000_0000,
            (p >> 64u32) as int,
            ((p as u64) as int),
        );
    }
    (hi, lo)
}

/// A double-width pair shifted left, stated over the packed 128-bit value.
pub open spec fn wide_shl64_spec(hi: u64, lo: u64, count: u32) -> (u64, u64) {
    let v = (((hi as u128) << 64u32) | (lo as u128)) << count;
    (((v >> 64u32) as u64), (v as u64))
}

/// Logical left shift of the double-width pair `(hi, lo)`.
pub fn wide_shl64(hi: u64, lo: u64, count: u32) -> (r: (u64, u64))
    requires
        0 < count < BITS64,
    ensures
        r == wide_shl64_spec(hi, lo, count),
{
    let v: u128 = (((hi as u128) << 64u32) | (lo as u128)) << count;
    proof {
        lemma_u128_shr_is_div(v, 64u128);
        vstd::arithmetic::power2::lemma2_to64();
    }
    let rhi: u64 = (v >> 64u32) as u64;
    #[verifier::truncate]
    let rlo: u64 = v as u64;
    (rhi, rlo)
}

/// A double-width pair shifted right with sticky accumulation.
pub open spec fn wide_shr_sticky64_spec(hi: u64, lo: u64, count: u32) -> (u64, u64) {
    let v = ((hi as u128) << 64u32) | (lo as u128);
    if count < 128 {
        let kept = v >> count;
        let sticky: u64 = if v << ((128 - count) as u32) != 0 {
            1u64
        } else {
            0u64
        };
        (((kept >> 64u32) as u64), ((kept as u64) | sticky))
    } else {
        let sticky: u64 = if v != 0 {
            1u64
        } else {
            0u64
        };
        (0u64, sticky)
    }
}

/// Logical right shift of the double-width pair `(hi, lo)` by `count`,
/// OR-ing every bit shifted out into the least-significant result bit.
pub fn wide_shr_sticky64(hi: u64, lo: u64, count: u32) -> (r: (u64, u64))
    requires
        0 < count,
    ensures
        r == wide_shr_sticky64_spec(hi, lo, count),
{
    let v: u128 = ((hi as u128) << 64u32) | (lo as u128);
    if count < 128 {
        let kept: u128 = v >> count;
        let sticky: u64 = if v << (128 - count) != 0 {
            1u64
        } else {
            0u64
        };
        proof {
            lemma_u128_shr_is_div(kept, 64u128);
            vstd::arithmetic::power2::lemma2_to64();
        }
        let rhi: u64 = (kept >> 64u32) as u64;
        #[verifier::truncate]
        let rlo: u64 = kept as u64;
        (rhi, rlo | sticky)
    } else {
        let sticky: u64 = if v != 0 {
            1u64
        } else {
            0u64
        };
        (0u64, sticky)
    }
}

/// The reciprocal approximation for this width: the single-width seed and
/// three refinement rounds on the top word of the significand, a one-unit
/// downward adjustment, then one full-width refinement round.
pub open spec fn recip64_spec(b: u64) -> u64 {
    let q31b = (b >> 21u32) as u32;
    let r0 = u32_specs::wrapping_sub(0x7504_F333u32, q31b);
    let r3 = recip_round32(recip_round32(recip_round32(r0, q31b), q31b), q31b);
    let r3m = u32_specs::wrapping_sub(r3, 1u32);
    let q63blo = (b << 11u32) as u32;
    let mid = (((r3m as int) * (q63blo as int)) / 0x1_0000_0000) as u64;
    let corr = u64_specs::wrapping_sub(0u64, (((r3m as int) * (q31b as int)) + mid) as u64);
    let chi = (corr >> 32u32) as u32;
    let clo = corr as u32;
    (((r3m as int) * (chi as int)) + ((r3m as int) * (clo as int)) / 0x1_0000_0000) as u64
}

/// Fixed-point approximation of the reciprocal of a normalized double-width
/// significand, per [`recip64_spec`]. The divide engine applies its own final
/// downward bias before use.
pub fn compute_reciprocal64(b: u64) -> (r: u64)
    ensures
        r == recip64_spec(b),
{
    let q31b: u32 = #[verifier::truncate] ((b >> 21u32) as u32);
    let r0: u32 = 0x7504_F333u32.wrapping_sub(q31b);
    let r1: u32 = crate::bits32::recip_round32_exec(r0, q31b);
    let r2: u32 = crate::bits32::recip_round32_exec(r1, q31b);
    let r3: u32 = crate::bits32::recip_round32_exec(r2, q31b);
    let r3m: u32 = r3.wrapping_sub(1);
    let q63blo: u32 = #[verifier::truncate] ((b << 11u32) as u32);
    proof {
        assert((r3m as u64) * (q63blo as u64) <= 0xFFFF_FFFFu64 * 0xFFFF_FFFFu64
            && (r3m as u64) * (q31b as u64) <= 0xFFFF_FFFFu64 * 0xFFFF_FFFFu64)
            by (nonlinear_arith)
            requires
                r3m <= 0xFFFF_FFFFu64,
                q63blo <= 0xFFFF_FFFFu64,
                q31b <= 0xFFFF_FFFFu64,
        ;
    }
    let midp: u64 = (r3m as u64) * (q63blo as u64);
    let mid: u64 = midp >> 32u32;
    proof {
        lemma_u64_shr_is_div(midp, 32u64);
        vstd::arithmetic::power2::lemma2_to64();
        assert(midp >> 32u32 <= 0xFFFF_FFFFu64 && midp >> 0u32 == midp) by (bit_vector);
    }
    let main_part: u64 = (r3m as u64) * (q31b as u64);
    let corr: u64 = 0u64.wrapping_sub(main_part + mid);
    let chi: u32 = (corr >> 32u32) as u32;
    #[verifier::truncate]
    let clo: u32 = corr as u32;
    proof {
        assert(corr >> 32u32 <= 0xFFFF_FFFFu64 && (corr >> 32u32) == ((corr >> 32u32) as u32))
            by (bit_vector);
    }
    let p1: (u32, u32) = wide_mul32(r3m, chi);
    let p2: (u32, u32) = wide_mul32(r3m, clo);
    let packed: u64 = ((p1.0 as u64) << 32u32) | (p1.1 as u64);
    proof {
        assert((r3m as int) * (chi as int) <= 0xFFFF_FFFF * 0xFFFF_FFFF) by (nonlinear_arith)
            requires
                r3m <= 0xFFFF_FFFFu32,
                chi <= 0xFFFF_FFFFu32,
        ;
        let h: u32 = p1.0;
        let l: u32 = p1.1;
        assert((((h as u64) << 32u32) | (l as u64) == (h as u64) * 0x1_0000_0000 + (l as u64))
            && ((corr as u32) as u64) == corr % 0x1_0000_0000u64) by (bit_vector);
        assert((clo as int) == ((corr as int) % 0x1_0000_0000));
        assert((chi as int) == ((corr as int) / 0x1_0000_0000)) by {
            lemma_u64_shr_is_div(corr, 32u64);
        }
    }
    packed + p2.0 as u64
}

/// Field facts for one double-width pattern, as the single width has them.
pub proof fn lemma_decompose64(x: u64)
    ensures
        x & ABS64 <= ABS64,
        (x & ABS64) >> SIG_BITS64 <= 2047,
        x & ABS64 < EXP_MASK64 ==> (x & ABS64) >> SIG_BITS64 <= 2046,
        x & ABS64 < IMPLICIT64 ==> ((x & ABS64) & SIG_MASK64) == (x & ABS64) && (x & ABS64)
            >> SIG_BITS64 == 0,
        x & ABS64 >= IMPLICIT64 ==> (x & ABS64) >> SIG_BITS64 >= 1,
        (x & ABS64) & SIG_MASK64 <= SIG_MASK64,
        (((x & ABS64) & SIG_MASK64) | IMPLICIT64) < 2 * IMPLICIT64,
        x & SIGN64 == 0 || x & SIGN64 == SIGN64,
        x & ABS64 > EXP_MASK64 ==> ((x | QUIET64) & ABS64 > EXP_MASK64 && (x | QUIET64) & QUIET64
            != 0 && ((x & ABS64) | QUIET64) & ABS64 > EXP_MASK64 && ((x & ABS64) | QUIET64)
            & QUIET64 != 0),
        biased_exp64(x) == (x & ABS64) >> SIG_BITS64,
        frac64(x) == (x & ABS64) & SIG_MASK64,
        is_quiet_nan64(QNAN64),
        x <= ABS64 ==> x & ABS64 == x,
        x == 0 ==> x & ABS64 == 0,
        x & ABS64 == 0 ==> (x == 0 || x == SIGN64),
{
    assert(x & 0x7FFF_FFFF_FFFF_FFFFu64 <= 0x7FFF_FFFF_FFFF_FFFFu64 && (x
        & 0x7FFF_FFFF_FFFF_FFFFu64) >> 52u32 <= 2047 && ((x & 0x7FFF_FFFF_FFFF_FFFFu64)
        < 0x7FF0_0000_0000_0000u64 ==> (x & 0x7FFF_FFFF_FFFF_FFFFu64) >> 52u32 <= 2046) && ((x
        & 0x7FFF_FFFF_FFFF_FFFFu64) < 0x0010_0000_0000_0000u64 ==> ((x
        & 0x7FFF_FFFF_FFFF_FFFFu64) & 0x000F_FFFF_FFFF_FFFFu64) == (x
        & 0x7FFF_FFFF_FFFF_FFFFu64) && (x & 0x7FFF_FFFF_FFFF_FFFFu64) >> 52u32 == 0) && ((x
        & 0x7FFF_FFFF_FFFF_FFFFu64) >= 0x0010_0000_0000_0000u64 ==> (x
        & 0x7FFF_FFFF_FFFF_FFFFu64) >> 52u32 >= 1) && ((x & 0x7FFF_FFFF_FFFF_FFFFu64)
        & 0x000F_FFFF_FFFF_FFFFu64) <= 0x000F_FFFF_FFFF_FFFFu64 && ((((x
        & 0x7FFF_FFFF_FFFF_FFFFu64) & 0x000F_FFFF_FFFF_FFFFu64) | 0x0010_0000_0000_0000u64)
        < 0x0020_0000_0000_0000u64) && (x & 0x8000_0000_0000_0000u64 == 0 || x
        & 0x8000_0000_0000_0000u64 == 0x8000_0000_0000_0000u64) && ((x
        & 0x7FFF_FFFF_FFFF_FFFFu64) > 0x7FF0_0000_0000_0000u64 ==> ((x
        | 0x0008_0000_0000_0000u64) & 0x7FFF_FFFF_FFFF_FFFFu64 > 0x7FF0_0000_0000_0000u64 && (x
        | 0x0008_0000_0000_0000u64) & 0x0008_0000_0000_0000u64 != 0 && ((x
        & 0x7FFF_FFFF_FFFF_FFFFu64) | 0x0008_0000_0000_0000u64) & 0x7FFF_FFFF_FFFF_FFFFu64
        > 0x7FF0_0000_0000_0000u64 && ((x & 0x7FFF_FFFF_FFFF_FFFFu64)
        | 0x0008_0000_0000_0000u64) & 0x0008_0000_0000_0000u64 != 0)) && ((x >> 52u32)
        & 2047u64) == ((x & 0x7FFF_FFFF_FFFF_FFFFu64) >> 52u32) && (x
        & 0x000F_FFFF_FFFF_FFFFu64) == ((x & 0x7FFF_FFFF_FFFF_FFFFu64)
        & 0x000F_FFFF_FFFF_FFFFu64) && 0x7FF8_0000_0000_0000u64 & 0x7FFF_FFFF_FFFF_FFFFu64
        > 0x7FF0_0000_0000_0000u64 && 0x7FF8_0000_0000_0000u64 & 0x0008_0000_0000_0000u64 != 0
        && (x <= 0x7FFF_FFFF_FFFF_FFFFu64 ==> x & 0x7FFF_FFFF_FFFF_FFFFu64 == x) && (x == 0 ==> x
        & 0x7FFF_FFFF_FFFF_FFFFu64 == 0) && (x & 0x7FFF_FFFF_FFFF_FFFFu64 == 0 ==> (x == 0 || x
        == 0x8000_0000_0000_0000u64))) by (bit_vector);
}

/// Pairwise relations for the double width.
pub proof fn lemma_pair64(a: u64, b: u64)
    ensures
        (a ^ b) == (b ^ a),
        (a & b) == (b & a),
        (a ^ b) & SIGN64 == 0 || (a ^ b) & SIGN64 == SIGN64,
        (a ^ b) == 0 ==> a == b,
        (a ^ b) == SIGN64 ==> (a & ABS64) == (b & ABS64),
        (a & ABS64) == (b & ABS64) ==> ((a ^ b) == 0 || (a ^ b) == SIGN64),
        (a & ABS64) == (b & ABS64) && (a ^ b) & SIGN64 == 0 ==> a == b,
        b == 0 ==> (a & b) == 0,
{
    assert((b == 0 ==> (a & b) == 0) && (a ^ b) == (b ^ a) && (a & b) == (b & a) && ((a ^ b)
        & 0x8000_0000_0000_0000u64 == 0
        || (a ^ b) & 0x8000_0000_0000_0000u64 == 0x8000_0000_0000_0000u64) && ((a ^ b) == 0 ==> a
        == b) && ((a ^ b) == 0x8000_0000_0000_0000u64 ==> (a & 0x7FFF_FFFF_FFFF_FFFFu64) == (b
        & 0x7FFF_FFFF_FFFF_FFFFu64)) && ((a & 0x7FFF_FFFF_FFFF_FFFFu64) == (b
        & 0x7FFF_FFFF_FFFF_FFFFu64) ==> ((a ^ b) == 0 || (a ^ b) == 0x8000_0000_0000_0000u64))
        && (((a & 0x7FFF_FFFF_FFFF_FFFFu64) == (b & 0x7FFF_FFFF_FFFF_FFFFu64) && (a ^ b)
        & 0x8000_0000_0000_0000u64 == 0) ==> a == b)) by (bit_vector);
}

/// The implicit-bit absorption bound for the double width.
pub proof fn lemma_or_implicit64(sig: u64)
    requires
        sig < 2 * IMPLICIT64,
    ensures
        IMPLICIT64 <= (sig | IMPLICIT64) < 2 * IMPLICIT64,
{
    assert(sig < 0x0020_0000_0000_0000u64 ==> (0x0010_0000_0000_0000u64 <= (sig
        | 0x0010_0000_0000_0000u64) < 0x0020_0000_0000_0000u64)) by (bit_vector);
}

/// A magnitude with a bare sign bit attached leaves room for the rounding
/// increments, for the double width.
pub proof fn lemma_attach_sign64(h: u64, s: u64)
    requires
        h <= 2 * IMPLICIT64,
        s == 0 || s == SIGN64,
    ensures
        (h | s) + 2 <= 0xFFFF_FFFF_FFFF_FFFF,
{
    assert((h <= 0x0020_0000_0000_0000u64 && (s == 0 || s == 0x8000_0000_0000_0000u64)) ==> (h
        | s) + 2 <= 0xFFFF_FFFF_FFFF_FFFF) by (bit_vector);
}

/// The lowest bit of a double word is zero or one.
pub proof fn lemma_low_bit64(x: u64)
    ensures
        x & 1 <= 1,
{
    assert(x & 1 <= 1) by (bit_vector);
}

/// Room for the rounding increments in an assembled double-width pattern.
pub proof fn lemma_assemble64(sig: u64, e: u64, s: u64)
    requires
        e <= 2046,
        s == 0 || s == SIGN64,
    ensures
        (((sig & SIG_MASK64) | (e << SIG_BITS64)) | s) + 2 <= 0xFFFF_FFFF_FFFF_FFFF,
        ((sig & SIG_MASK64) | (e << SIG_BITS64)) + 2 <= 0xFFFF_FFFF_FFFF_FFFF,
{
    assert(e <= 2046 && (s == 0 || s == 0x8000_0000_0000_0000u64) ==> ((((sig
        & 0x000F_FFFF_FFFF_FFFFu64) | (e << 52u32)) | s) + 2 <= 0xFFFF_FFFF_FFFF_FFFF && ((sig
        & 0x000F_FFFF_FFFF_FFFFu64) | (e << 52u32)) + 2 <= 0xFFFF_FFFF_FFFF_FFFF))
        by (bit_vector);
}

} // verus!


