//! Format descriptor for the single-width (32-bit) floating encoding:
//! field constants, classification spec functions, and the shared bit-level
//! helpers (normalization, double-width multiply and shifts, reciprocal
//! approximation) that the arithmetic engines build on.

use vstd::prelude::*;

verus! {

use vstd::arithmetic::power2::pow2;
use vstd::bits::{lemma_u64_shr_is_div, lemma_u32_shl_is_mul};
use vstd::std_specs::bits::{u32_leading_zeros, axiom_u32_leading_zeros};
use vstd::wrapping::u32_specs;

/// Total bit width of the encoding.
pub const BITS32: u32 = 32;

/// Number of stored significand bits.
pub const SIG_BITS32: u32 = 23;

/// Number of exponent bits.
pub const EXP_BITS32: u32 = 8;

/// Largest biased exponent field value (all ones).
pub const EXP_MAX32: u32 = 255;

/// Exponent bias.
pub const BIAS32: u32 = 127;

/// Mask of the sign bit.
pub const SIGN32: u32 = 0x8000_0000;

/// Mask of everything but the sign bit.
pub const ABS32: u32 = 0x7FFF_FFFF;

/// Mask of the stored significand field.
pub const SIG_MASK32: u32 = 0x007F_FFFF;

/// Position of the implicit leading significand bit.
pub const IMPLICIT32: u32 = 0x0080_0000;

/// Mask of the exponent field; also the encoding of positive infinity.
pub const EXP_MASK32: u32 = 0x7F80_0000;

/// The quiet-NaN bit.
pub const QUIET32: u32 = 0x0040_0000;

/// The canonical quiet NaN produced for invalid operations.
pub const QNAN32: u32 = 0x7FC0_0000;

/// Magnitude bits: the pattern with the sign bit cleared.
pub open spec fn abs32(x: u32) -> u32 {
    x & ABS32
}

/// The sign bit, isolated.
pub open spec fn sign32(x: u32) -> u32 {
    x & SIGN32
}

/// The biased exponent field.
pub open spec fn biased_exp32(x: u32) -> u32 {
    (x >> SIG_BITS32) & EXP_MAX32
}

/// The stored significand field (without the implicit bit).
pub open spec fn frac32(x: u32) -> u32 {
    x & SIG_MASK32
}

/// A NaN: exponent all ones and a nonzero significand.
pub open spec fn is_nan32(x: u32) -> bool {
    abs32(x) > EXP_MASK32
}

/// A quiet NaN: a NaN with the quiet bit set.
pub open spec fn is_quiet_nan32(x: u32) -> bool {
    is_nan32(x) && x & QUIET32 != 0
}

/// Positive or negative infinity.
pub open spec fn is_inf32(x: u32) -> bool {
    abs32(x) == EXP_MASK32
}

/// Positive or negative zero.
pub open spec fn is_zero32(x: u32) -> bool {
    abs32(x) == 0
}

/// Neither an infinity nor a NaN.
pub open spec fn is_finite32(x: u32) -> bool {
    abs32(x) < EXP_MASK32
}

/// Assembles sign, biased exponent and significand fields into a pattern.
/// Inputs are treated as bits and shifted into position; out-of-field bits
/// are masked away.
pub open spec fn pack32(sign: bool, exponent: u32, significand: u32) -> u32 {
    (if sign {
        SIGN32
    } else {
        0u32
    }) | ((exponent << SIG_BITS32) & EXP_MASK32) | (significand & SIG_MASK32)
}

/// Exact classification check used by the engines.
pub fn nan32(x: u32) -> (b: bool)
    ensures
        b == is_nan32(x),
{
    (x & ABS32) > EXP_MASK32
}

/// Constructs a pattern from its parts, as [`pack32`] describes.
pub fn from_parts32(sign: bool, exponent: u32, significand: u32) -> (r: u32)
    ensures
        r == pack32(sign, exponent, significand),
{
    (if sign {
        SIGN32
    } else {
        0u32
    }) | ((exponent << SIG_BITS32) & EXP_MASK32) | (significand & SIG_MASK32)
}

/// Bitwise equality, except that any two NaNs compare equal (NaN admits
/// many encodings).
pub fn eq_repr32(x: u32, y: u32) -> (b: bool)
    ensures
        b == if is_nan32(x) && is_nan32(y) {
            true
        } else {
            x == y
        },
{
    if nan32(x) && nan32(y) {
        true
    } else {
        x == y
    }
}

/// Left-shift amount that brings the leading one of `sig` to the implicit-bit
/// position, paired with the exponent adjustment `1 - shift`.
pub open spec fn normalize32_spec(sig: u32) -> (int, u32) {
    let z = u32_leading_zeros(sig);
    if z >= EXP_BITS32 + 1 {
        let shift = (z - EXP_BITS32) as u32;
        (1 - shift, sig << shift)
    } else {
        (1int, sig)
    }
}

/// What normalization does to a subnormal significand: the adjustment is at
/// most the significand width, and the shifted value carries the leading one
/// exactly at the implicit-bit position.
pub proof fn lemma_normalize32_props(sig: u32)
    ensures
        0 < sig < IMPLICIT32 ==> {
            &&& (-22) <= normalize32_spec(sig).0 <= 0
            &&& IMPLICIT32 <= normalize32_spec(sig).1 < 2 * IMPLICIT32
            &&& normalize32_spec(sig).1 == sig * pow2((1 - normalize32_spec(sig).0) as nat)
        },
{
    axiom_u32_leading_zeros(sig);
    let z = u32_leading_zeros(sig);
    if 0 < sig < IMPLICIT32 {
        assert(z < 32);
        assert(sig >> ((32 - z) as u32) == 0 && (sig >> ((31 - z) as u32)) & 1 != 0);
        let shift = (z - EXP_BITS32) as u32;
        assert(((z <= 8 && (sig >> ((31 - z) as u32)) & 1 != 0) ==> sig >= 0x0080_0000u32) && ((9
            <= z < 32 && sig >> ((32 - z) as u32) == 0 && (sig >> ((31 - z) as u32)) & 1 != 0)
            ==> 0x0080_0000u32 <= (sig << ((z - 8) as u32)) < 0x0100_0000 && sig < (1u32 << ((32
            - z) as u32)))) by (bit_vector);
        assert(z >= 9);
        assert(sig * pow2(shift as nat) < 0x0100_0000) by {
            assert(sig < (1u32 << ((32 - z) as u32)));
            assert((1u32 << ((32 - z) as u32)) == pow2((32 - z) as nat)) by {
                vstd::arithmetic::power2::lemma_pow2_pos((32 - z) as nat);
                vstd::bits::lemma_u32_pow2_no_overflow((32 - z) as nat);
                lemma_u32_shl_is_mul(1u32, (32 - z) as u32);
            }
            assert(sig * pow2(shift as nat) < pow2((32 - z) as nat) * pow2(shift as nat)) by {
                vstd::arithmetic::power2::lemma_pow2_pos(shift as nat);
                vstd::arithmetic::mul::lemma_mul_strict_inequality(
                    sig as int,
                    pow2((32 - z) as nat) as int,
                    pow2(shift as nat) as int,
                );
            }
            vstd::arithmetic::power2::lemma_pow2_adds((32 - z) as nat, shift as nat);
            vstd::arithmetic::power2::lemma2_to64();
        }
        vstd::arithmetic::power2::lemma2_to64();
        lemma_u32_shl_is_mul(sig, shift);
    }
}

/// Renormalizes a subnormal significand: returns the exponent adjustment and
/// the significand shifted so that its leading one sits at the implicit-bit
/// position. A significand already at or above that position is returned
/// unchanged.
pub fn normalize32(sig: u32) -> (r: (i32, u32))
    ensures
        r.0 == normalize32_spec(sig).0,
        r.1 == normalize32_spec(sig).1,
        0 < sig < IMPLICIT32 ==> {
            &&& (-22) <= r.0 <= 0
            &&& IMPLICIT32 <= r.1 < 2 * IMPLICIT32
            &&& r.1 == sig * pow2((1 - r.0) as nat)
        },
{
    proof {
        lemma_normalize32_props(sig);
        axiom_u32_leading_zeros(sig);
    }
    let z: u32 = sig.leading_zeros();
    if z >= EXP_BITS32 + 1 {
        let shift: u32 = z - EXP_BITS32;
        (1i32 - (shift as i32), sig << shift)
    } else {
        (1i32, sig)
    }
}

/// The exact double-width product of two words, as (high, low) halves.
pub open spec fn wide_mul32_spec(a: u32, b: u32) -> (u32, u32) {
    let p = (a as int) * (b as int);
    (((p / 0x1_0000_0000) as u32), ((p % 0x1_0000_0000) as u32))
}

/// Exact 64-bit product of two 32-bit words, split into high and low halves.
pub fn wide_mul32(a: u32, b: u32) -> (r: (u32, u32))
    ensures
        r == wide_mul32_spec(a, b),
        (r.0 as int) * 0x1_0000_0000 + (r.1 as int) == (a as int) * (b as int),
{
    proof {
        assert((a as u64) * (b as u64) <= 0xFFFF_FFFFu64 * 0xFFFF_FFFFu64) by (nonlinear_arith)
            requires
                a <= 0xFFFF_FFFFu64,
                b <= 0xFFFF_FFFFu64,
        ;
    }
    let p: u64 = (a as u64) * (b as u64);
    let hi: u32 = (p >> 32u32) as u32;
    #[verifier::truncate]
    let lo: u32 = p as u32;
    proof {
        assert(p >> 32u32 <= 0xFFFF_FFFFu64 && (p >> 32u32) * 0x1_0000_0000 + ((p as u32) as u64)
            == p) by (bit_vector);
        lemma_u64_shr_is_div(p, 32u64);
        vstd::arithmetic::power2::lemma2_to64();
        vstd::arithmetic::div_mod::lemma_fundamental_div_mod_converse(
            p as int,
            0x1_0000_0000,
            (p >> 32u32) as int,
            ((p as u32) as int),
        );
    }
    (hi, lo)
}

/// A double-width pair shifted left; the result of
/// [`wide_shl32`] stated over the packed 64-bit value.
pub open spec fn wide_shl32_spec(hi: u32, lo: u32, count: u32) -> (u32, u32) {
    let v = (((hi as u64) << 32u32) | (lo as u64)) << count;
    (((v >> 32u32) as u32), (v as u32))
}

/// Logical left shift of the double-width pair `(hi, lo)`.
pub fn wide_shl32(hi: u32, lo: u32, count: u32) -> (r: (u32, u32))
    requires
        0 < count < BITS32,
    ensures
        r == wide_shl32_spec(hi, lo, count),
{
    let v: u64 = (((hi as u64) << 32u32) | (lo as u64)) << count;
    proof {
        lemma_u64_shr_is_div(v, 32u64);
        vstd::arithmetic::power2::lemma2_to64();
    }
    let rhi: u32 = (v >> 32u32) as u32;
    #[verifier::truncate]
    let rlo: u32 = v as u32;
    (rhi, rlo)
}

/// A double-width pair shifted right with sticky accumulation: every bit
/// shifted out is collapsed into the least-significant bit of the result,
/// so later rounding still sees whether anything nonzero was discarded.
pub open spec fn wide_shr_sticky32_spec(hi: u32, lo: u32, count: u32) -> (u32, u32) {
    let v = ((hi as u64) << 32u32) | (lo as u64);
    if count < 64 {
        let kept = v >> count;
        let sticky: u32 = if v << ((64 - count) as u32) != 0 {
            1u32
        } else {
            0u32
        };
        (((kept >> 32u32) as u32), ((kept as u32) | sticky))
    } else {
        let sticky: u32 = if v != 0 {
            1u32
        } else {
            0u32
        };
        (0u32, sticky)
    }
}

/// Logical right shift of the double-width pair `(hi, lo)` by `count`,
/// OR-ing every bit shifted out into the least-significant result bit.
/// Defined for any positive count; at or beyond the double width the whole
/// value collapses into the sticky position.
pub fn wide_shr_sticky32(hi: u32, lo: u32, count: u32) -> (r: (u32, u32))
    requires
        0 < count,
    ensures
        r == wide_shr_sticky32_spec(hi, lo, count),
{
    let v: u64 = ((hi as u64) << 32u32) | (lo as u64);
    if count < 64 {
        let kept: u64 = v >> count;
        let sticky: u32 = if v << (64 - count) != 0 {
            1u32
        } else {
            0u32
        };
        proof {
            lemma_u64_shr_is_div(kept, 32u64);
            vstd::arithmetic::power2::lemma2_to64();
        }
        let rhi: u32 = (kept >> 32u32) as u32;
        #[verifier::truncate]
        let rlo: u32 = kept as u32;
        (rhi, rlo | sticky)
    } else {
        let sticky: u32 = if v != 0 {
            1u32
        } else {
            0u32
        };
        (0u32, sticky)
    }
}

/// One Newton–Raphson refinement round on a fixed-point reciprocal estimate:
/// the correction term `-(r * q >> 32)` followed by `r * correction >> 31`,
/// truncated to the word width.
pub open spec fn recip_round32(r: u32, q31b: u32) -> u32 {
    let corr = u32_specs::wrapping_sub(0u32, (((r as int) * (q31b as int) / 0x1_0000_0000) as u32));
    ((((r as int) * (corr as int)) / 0x8000_0000) % 0x1_0000_0000) as u32
}

/// The reciprocal approximation: a linear seed refined by three
/// Newton–Raphson rounds, all in fixed point.
pub open spec fn recip32_spec(b: u32) -> u32 {
    let q31b = b << 8u32;
    let r0 = u32_specs::wrapping_sub(0x7504_F333u32, q31b);
    recip_round32(recip_round32(recip_round32(r0, q31b), q31b), q31b)
}

/// One refinement round, executable form.
pub(crate) fn recip_round32_exec(r: u32, q31b: u32) -> (out: u32)
    ensures
        out == recip_round32(r, q31b),
{
    let p: (u32, u32) = wide_mul32(r, q31b);
    let corr: u32 = 0u32.wrapping_sub(p.0);
    proof {
        assert((r as u64) * (corr as u64) <= 0xFFFF_FFFFu64 * 0xFFFF_FFFFu64) by (nonlinear_arith)
            requires
                r <= 0xFFFF_FFFFu64,
                corr <= 0xFFFF_FFFFu64,
        ;
    }
    let p2: u64 = (r as u64) * (corr as u64);
    let out: u32 = #[verifier::truncate] ((p2 >> 31u32) as u32);
    proof {
        lemma_u64_shr_is_div(p2, 31u64);
        vstd::arithmetic::power2::lemma2_to64();
        assert(((p2 >> 31u32) as u32) == ((p2 >> 31u32) as int % 0x1_0000_0000)) by (bit_vector);
        assert(p.0 == ((r as int) * (q31b as int) / 0x1_0000_0000) as u32);
    }
    out
}

/// Fixed-point approximation of the reciprocal of a normalized significand
/// (treated as a fraction in [1, 2)), by a linear seed and three
/// Newton–Raphson refinement rounds. The divide engine applies its own
/// final downward bias before use.
pub fn compute_reciprocal32(b: u32) -> (r: u32)
    ensures
        r == recip32_spec(b),
{
    let q31b: u32 = b << 8u32;
    let r0: u32 = 0x7504_F333u32.wrapping_sub(q31b);
    let r1: u32 = recip_round32_exec(r0, q31b);
    let r2: u32 = recip_round32_exec(r1, q31b);
    recip_round32_exec(r2, q31b)
}

/// Field facts every engine needs about one pattern: bounds of the masked
/// fields, how the subnormal test reads on them, the sign bit's two values,
/// and that quieting a NaN keeps it a NaN.
pub proof fn lemma_decompose32(x: u32)
    ensures
        x & ABS32 <= ABS32,
        (x & ABS32) >> SIG_BITS32 <= 255,
        x & ABS32 < EXP_MASK32 ==> (x & ABS32) >> SIG_BITS32 <= 254,
        x & ABS32 < IMPLICIT32 ==> ((x & ABS32) & SIG_MASK32) == (x & ABS32) && (x & ABS32)
            >> SIG_BITS32 == 0,
        x & ABS32 >= IMPLICIT32 ==> (x & ABS32) >> SIG_BITS32 >= 1,
        (x & ABS32) & SIG_MASK32 <= SIG_MASK32,
        (((x & ABS32) & SIG_MASK32) | IMPLICIT32) < 2 * IMPLICIT32,
        x & SIGN32 == 0 || x & SIGN32 == SIGN32,
        x & ABS32 > EXP_MASK32 ==> ((x | QUIET32) & ABS32 > EXP_MASK32 && (x | QUIET32) & QUIET32
            != 0 && ((x & ABS32) | QUIET32) & ABS32 > EXP_MASK32 && ((x & ABS32) | QUIET32)
            & QUIET32 != 0),
        biased_exp32(x) == (x & ABS32) >> SIG_BITS32,
        frac32(x) == (x & ABS32) & SIG_MASK32,
        is_quiet_nan32(QNAN32),
        x <= ABS32 ==> x & ABS32 == x,
        x == 0 ==> x & ABS32 == 0,
        x & ABS32 == 0 ==> (x == 0 || x == SIGN32),
{
    assert(x & 0x7FFF_FFFFu32 <= 0x7FFF_FFFFu32 && (x & 0x7FFF_FFFFu32) >> 23u32 <= 255 && ((x
        & 0x7FFF_FFFFu32) < 0x7F80_0000u32 ==> (x & 0x7FFF_FFFFu32) >> 23u32 <= 254) && ((x
        & 0x7FFF_FFFFu32) < 0x0080_0000u32 ==> ((x & 0x7FFF_FFFFu32) & 0x007F_FFFFu32) == (x
        & 0x7FFF_FFFFu32) && (x & 0x7FFF_FFFFu32) >> 23u32 == 0) && ((x & 0x7FFF_FFFFu32)
        >= 0x0080_0000u32 ==> (x & 0x7FFF_FFFFu32) >> 23u32 >= 1) && ((x & 0x7FFF_FFFFu32)
        & 0x007F_FFFFu32) <= 0x007F_FFFFu32 && ((((x & 0x7FFF_FFFFu32) & 0x007F_FFFFu32)
        | 0x0080_0000u32) < 0x0100_0000u32) && (x & 0x8000_0000u32 == 0 || x & 0x8000_0000u32
        == 0x8000_0000u32) && ((x & 0x7FFF_FFFFu32) > 0x7F80_0000u32 ==> ((x | 0x0040_0000u32)
        & 0x7FFF_FFFFu32 > 0x7F80_0000u32 && (x | 0x0040_0000u32) & 0x0040_0000u32 != 0 && ((x
        & 0x7FFF_FFFFu32) | 0x0040_0000u32) & 0x7FFF_FFFFu32 > 0x7F80_0000u32 && ((x
        & 0x7FFF_FFFFu32) | 0x0040_0000u32) & 0x0040_0000u32 != 0)) && ((x >> 23u32) & 255u32)
        == ((x & 0x7FFF_FFFFu32) >> 23u32) && (x & 0x007F_FFFFu32) == ((x & 0x7FFF_FFFFu32)
        & 0x007F_FFFFu32) && 0x7FC0_0000u32 & 0x7FFF_FFFFu32 > 0x7F80_0000u32 && 0x7FC0_0000u32
        & 0x0040_0000u32 != 0 && (x <= 0x7FFF_FFFFu32 ==> x & 0x7FFF_FFFFu32 == x) && (x == 0
        ==> x & 0x7FFF_FFFFu32 == 0) && (x & 0x7FFF_FFFFu32 == 0 ==> (x == 0 || x
        == 0x8000_0000u32))) by (bit_vector);
}

/// Relations between two patterns that the sign and magnitude tests rely
/// on: symmetry of the bit operations, the two values of the combined sign,
/// and when equal magnitudes force equal patterns.
pub proof fn lemma_pair32(a: u32, b: u32)
    ensures
        (a ^ b) == (b ^ a),
        (a & b) == (b & a),
        (a ^ b) & SIGN32 == 0 || (a ^ b) & SIGN32 == SIGN32,
        (a ^ b) == 0 ==> a == b,
        (a ^ b) == SIGN32 ==> (a & ABS32) == (b & ABS32),
        (a & ABS32) == (b & ABS32) ==> ((a ^ b) == 0 || (a ^ b) == SIGN32),
        (a & ABS32) == (b & ABS32) && (a ^ b) & SIGN32 == 0 ==> a == b,
        b == 0 ==> (a & b) == 0,
{
    assert((b == 0 ==> (a & b) == 0) && (a ^ b) == (b ^ a) && (a & b) == (b & a) && ((a ^ b)
        & 0x8000_0000u32 == 0 || (a ^ b)
        & 0x8000_0000u32 == 0x8000_0000u32) && ((a ^ b) == 0 ==> a == b) && ((a ^ b)
        == 0x8000_0000u32 ==> (a & 0x7FFF_FFFFu32) == (b & 0x7FFF_FFFFu32)) && ((a
        & 0x7FFF_FFFFu32) == (b & 0x7FFF_FFFFu32) ==> ((a ^ b) == 0 || (a ^ b)
        == 0x8000_0000u32)) && (((a & 0x7FFF_FFFFu32) == (b & 0x7FFF_FFFFu32) && (a ^ b)
        & 0x8000_0000u32 == 0) ==> a == b)) by (bit_vector);
}

/// Setting the implicit bit on a significand below twice its position stays
/// below twice its position, at or above it.
pub proof fn lemma_or_implicit32(sig: u32)
    requires
        sig < 2 * IMPLICIT32,
    ensures
        IMPLICIT32 <= (sig | IMPLICIT32) < 2 * IMPLICIT32,
{
    assert(sig < 0x0100_0000u32 ==> (0x0080_0000u32 <= (sig | 0x0080_0000u32)
        < 0x0100_0000u32)) by (bit_vector);
}

/// A magnitude with a bare sign bit attached leaves room for the rounding
/// increments.
pub proof fn lemma_attach_sign32(h: u32, s: u32)
    requires
        h <= 2 * IMPLICIT32,
        s == 0 || s == SIGN32,
    ensures
        (h | s) + 2 <= 0xFFFF_FFFF,
{
    assert((h <= 0x0100_0000u32 && (s == 0 || s == 0x8000_0000u32)) ==> (h | s) + 2
        <= 0xFFFF_FFFF) by (bit_vector);
}

/// The lowest bit of a word is zero or one.
pub proof fn lemma_low_bit32(x: u32)
    ensures
        x & 1 <= 1,
{
    assert(x & 1 <= 1) by (bit_vector);
}

/// An assembled pattern (significand field, an exponent field below the
/// maximum, a bare sign bit) leaves room for the rounding increments.
pub proof fn lemma_assemble32(sig: u32, e: u32, s: u32)
    requires
        e <= 254,
        s == 0 || s == SIGN32,
    ensures
        (((sig & SIG_MASK32) | (e << SIG_BITS32)) | s) + 2 <= 0xFFFF_FFFF,
        ((sig & SIG_MASK32) | (e << SIG_BITS32)) + 2 <= 0xFFFF_FFFF,
{
    assert(e <= 254 && (s == 0 || s == 0x8000_0000u32) ==> ((((sig & 0x007F_FFFFu32) | (e
        << 23u32)) | s) + 2 <= 0xFFFF_FFFF && ((sig & 0x007F_FFFFu32) | (e << 23u32)) + 2
        <= 0xFFFF_FFFF)) by (bit_vector);
}

} // verus!


