//! Relational properties of the engines, proved over their specification
//! mirrors: subtraction as sign-negated addition, commutativity of addition
//! and multiplication, the multiplicative and additive identities, and the
//! exactness of the integer round trip within significand precision.

use vstd::prelude::*;

verus! {

use crate::bits32::{ABS32, SIGN32, EXP_MASK32, QNAN32, is_nan32, is_quiet_nan32, is_finite32};
use crate::bits64::{ABS64, SIGN64, EXP_MASK64, QNAN64, is_nan64, is_quiet_nan64, is_finite64};
use crate::addition::{add_bits32, add_bits64, sub_bits32, sub_bits64, add_finite32, add_finite64,
    negate32, negate64};
use crate::multiplication::{mul_bits32, mul_bits64, mul_finite32, mul_finite64};
use crate::bits32::{IMPLICIT32, SIG_MASK32, SIG_BITS32, normalize32_spec, lemma_normalize32_props,
    wide_mul32_spec, lemma_decompose32, lemma_pair32, lemma_or_implicit32};
use crate::bits64::{IMPLICIT64, SIG_MASK64, SIG_BITS64, normalize64_spec, lemma_normalize64_props,
    wide_mul64_spec, lemma_decompose64, lemma_pair64, lemma_or_implicit64};
use vstd::bits::{lemma_u32_shl_is_mul, lemma_u64_shl_is_mul};
use vstd::arithmetic::power2::pow2;

/// Subtraction is addition with the second operand's sign inverted, for
/// every pair of patterns of either width.
pub proof fn lemma_sub_is_add_of_negation(a32: u32, b32: u32, a64: u64, b64: u64)
    ensures
        sub_bits32(a32, b32) == add_bits32(a32, negate32(b32)),
        sub_bits64(a64, b64) == add_bits64(a64, negate64(b64)),
{
}

/// Adding positive zero returns any finite pattern unchanged, except
/// negative zero (whose sum with positive zero is positive zero).
pub proof fn lemma_add_identity32(x: u32)
    requires
        is_finite32(x),
        x != SIGN32,
    ensures
        add_bits32(x, 0u32) == x,
{
    lemma_decompose32(x);
    lemma_decompose32(0u32);
    lemma_pair32(x, 0u32);
}

/// The additive identity for the double width.
pub proof fn lemma_add_identity64(x: u64)
    requires
        is_finite64(x),
        x != SIGN64,
    ensures
        add_bits64(x, 0u64) == x,
{
    lemma_decompose64(x);
    lemma_decompose64(0u64);
    lemma_pair64(x, 0u64);
}

/// Addition is commutative: bit-for-bit on non-NaN operands, and up to
/// quiet-NaN equivalence when an operand is NaN.
pub proof fn lemma_add_commutes32(a: u32, b: u32)
    ensures
        !is_nan32(a) && !is_nan32(b) ==> add_bits32(a, b) == add_bits32(b, a),
        is_nan32(a) || is_nan32(b) ==> is_quiet_nan32(add_bits32(a, b)) && is_quiet_nan32(
            add_bits32(b, a),
        ),
{
    let a_abs = a & ABS32;
    let b_abs = b & ABS32;
    lemma_decompose32(a);
    lemma_decompose32(b);
    lemma_pair32(a, b);
    if is_nan32(a) || is_nan32(b) {
    } else if a_abs == EXP_MASK32 {
        if b_abs == EXP_MASK32 {
            if (a ^ b) == SIGN32 {
                assert(add_bits32(a, b) == QNAN32);
                assert(add_bits32(b, a) == QNAN32);
            } else {
                assert(a == b);
            }
        } else {
            assert((a ^ b) != SIGN32);
            assert(add_bits32(a, b) == a);
            assert(add_bits32(b, a) == a);
        }
    } else if b_abs == EXP_MASK32 {
        assert((b ^ a) != SIGN32);
        assert(add_bits32(a, b) == b);
        assert(add_bits32(b, a) == b);
    } else if a_abs == 0 || b_abs == 0 {
        assert(add_bits32(a, b) == add_bits32(b, a));
    } else if a_abs == b_abs {
        if (a ^ b) & SIGN32 != 0 {
            assert(add_finite32(a, b) == 0 && add_finite32(b, a) == 0);
        } else {
            assert(a == b);
        }
        assert(add_bits32(a, b) == add_bits32(b, a));
    } else {
        assert(add_bits32(a, b) == add_bits32(b, a));
    }
}

/// Addition commutativity for the double width.
pub proof fn lemma_add_commutes64(a: u64, b: u64)
    ensures
        !is_nan64(a) && !is_nan64(b) ==> add_bits64(a, b) == add_bits64(b, a),
        is_nan64(a) || is_nan64(b) ==> is_quiet_nan64(add_bits64(a, b)) && is_quiet_nan64(
            add_bits64(b, a),
        ),
{
    let a_abs = a & ABS64;
    let b_abs = b & ABS64;
    lemma_decompose64(a);
    lemma_decompose64(b);
    lemma_pair64(a, b);
    if is_nan64(a) || is_nan64(b) {
    } else if a_abs == EXP_MASK64 {
        if b_abs == EXP_MASK64 {
            if (a ^ b) == SIGN64 {
                assert(add_bits64(a, b) == QNAN64);
                assert(add_bits64(b, a) == QNAN64);
            } else {
                assert(a == b);
            }
        } else {
            assert((a ^ b) != SIGN64);
            assert(add_bits64(a, b) == a);
            assert(add_bits64(b, a) == a);
        }
    } else if b_abs == EXP_MASK64 {
        assert((b ^ a) != SIGN64);
        assert(add_bits64(a, b) == b);
        assert(add_bits64(b, a) == b);
    } else if a_abs == 0 || b_abs == 0 {
        assert(add_bits64(a, b) == add_bits64(b, a));
    } else if a_abs == b_abs {
        if (a ^ b) & SIGN64 != 0 {
            assert(add_finite64(a, b) == 0 && add_finite64(b, a) == 0);
        } else {
            assert(a == b);
        }
        assert(add_bits64(a, b) == add_bits64(b, a));
    } else {
        assert(add_bits64(a, b) == add_bits64(b, a));
    }
}

/// The decoded significand of a finite, nonzero operand: the stored field,
/// renormalized when the operand is subnormal.
pub open spec fn op_sig32(x_abs: u32) -> u32 {
    if x_abs < IMPLICIT32 {
        normalize32_spec(x_abs & SIG_MASK32).1
    } else {
        x_abs & SIG_MASK32
    }
}

/// The decoded significand for the double width.
pub open spec fn op_sig64(x_abs: u64) -> u64 {
    if x_abs < IMPLICIT64 {
        normalize64_spec(x_abs & SIG_MASK64).1
    } else {
        x_abs & SIG_MASK64
    }
}

/// The decoded significand of a finite nonzero operand stays below twice the
/// implicit bit.
proof fn lemma_op_sig32_bound(x_abs: u32)
    requires
        x_abs != 0,
        x_abs < EXP_MASK32,
    ensures
        op_sig32(x_abs) < 2 * IMPLICIT32,
        (op_sig32(x_abs) | IMPLICIT32) < 2 * IMPLICIT32,
{
    lemma_normalize32_props(x_abs & SIG_MASK32);
    lemma_decompose32(x_abs);
    assert(x_abs & ABS32 == x_abs);
    lemma_or_implicit32(op_sig32(x_abs));
}

/// The same bound for the double width.
proof fn lemma_op_sig64_bound(x_abs: u64)
    requires
        x_abs != 0,
        x_abs < EXP_MASK64,
    ensures
        op_sig64(x_abs) < 2 * IMPLICIT64,
        (op_sig64(x_abs) | IMPLICIT64) < 2 * IMPLICIT64,
{
    lemma_normalize64_props(x_abs & SIG_MASK64);
    lemma_decompose64(x_abs);
    assert(x_abs & ABS64 == x_abs);
    lemma_or_implicit64(op_sig64(x_abs));
}

/// Multiplication is commutative: bit-for-bit on non-NaN operands, and up
/// to quiet-NaN equivalence when an operand is NaN.
pub proof fn lemma_mul_commutes32(a: u32, b: u32)
    ensures
        !is_nan32(a) && !is_nan32(b) ==> mul_bits32(a, b) == mul_bits32(b, a),
        is_nan32(a) || is_nan32(b) ==> is_quiet_nan32(mul_bits32(a, b)) && is_quiet_nan32(
            mul_bits32(b, a),
        ),
{
    let a_abs = a & ABS32;
    let b_abs = b & ABS32;
    lemma_decompose32(a);
    lemma_decompose32(b);
    lemma_pair32(a, b);
    if is_nan32(a) || is_nan32(b) {
    } else if a_abs == EXP_MASK32 || b_abs == EXP_MASK32 || a_abs == 0 || b_abs == 0 {
        assert(mul_bits32(a, b) == mul_bits32(b, a));
    } else {
        lemma_op_sig32_bound(a_abs);
        lemma_op_sig32_bound(b_abs);
        let a_s = op_sig32(a_abs) | IMPLICIT32;
        let b_s = op_sig32(b_abs) | IMPLICIT32;
        vstd::arithmetic::power2::lemma2_to64();
        lemma_u32_shl_is_mul(a_s, 8);
        lemma_u32_shl_is_mul(b_s, 8);
        assert((a_s as int) * ((b_s << 8u32) as int) == (b_s as int) * ((a_s << 8u32) as int))
            by (nonlinear_arith)
            requires
                (b_s << 8u32) == b_s * 256,
                (a_s << 8u32) == a_s * 256,
        ;
        assert(wide_mul32_spec(a_s, b_s << 8u32) == wide_mul32_spec(b_s, a_s << 8u32));
        assert(mul_finite32(a, b) == mul_finite32(b, a));
    }
}

/// Multiplication commutativity for the double width.
pub proof fn lemma_mul_commutes64(a: u64, b: u64)
    ensures
        !is_nan64(a) && !is_nan64(b) ==> mul_bits64(a, b) == mul_bits64(b, a),
        is_nan64(a) || is_nan64(b) ==> is_quiet_nan64(mul_bits64(a, b)) && is_quiet_nan64(
            mul_bits64(b, a),
        ),
{
    let a_abs = a & ABS64;
    let b_abs = b & ABS64;
    lemma_decompose64(a);
    lemma_decompose64(b);
    lemma_pair64(a, b);
    if is_nan64(a) || is_nan64(b) {
    } else if a_abs == EXP_MASK64 || b_abs == EXP_MASK64 || a_abs == 0 || b_abs == 0 {
        assert(mul_bits64(a, b) == mul_bits64(b, a));
    } else {
        lemma_op_sig64_bound(a_abs);
        lemma_op_sig64_bound(b_abs);
        let a_s = op_sig64(a_abs) | IMPLICIT64;
        let b_s = op_sig64(b_abs) | IMPLICIT64;
        vstd::arithmetic::power2::lemma2_to64();
        lemma_u64_shl_is_mul(a_s, 11);
        lemma_u64_shl_is_mul(b_s, 11);
        assert((a_s as int) * ((b_s << 11u32) as int) == (b_s as int) * ((a_s << 11u32) as int))
            by (nonlinear_arith)
            requires
                (b_s << 11u32) == b_s * 2048,
                (a_s << 11u32) == a_s * 2048,
        ;
        assert(wide_mul64_spec(a_s, b_s << 11u32) == wide_mul64_spec(b_s, a_s << 11u32));
        assert(mul_finite64(a, b) == mul_finite64(b, a));
    }
}


/// Multiplying any finite pattern by one returns it unchanged.
pub proof fn lemma_mul_identity32(x: u32)
    requires
        is_finite32(x),
    ensures
        mul_bits32(x, 0x3F80_0000u32) == x,
{
    let one: u32 = 0x3F80_0000u32;
    let x_abs = x & ABS32;
    lemma_decompose32(x);
    assert(one & 0x7FFF_FFFFu32 == one && one & 0x007F_FFFFu32 == 0 && ((x ^ one)
        & 0x8000_0000u32) == (x & 0x8000_0000u32) && one >> 23u32 == 127 && (x & 0x7FFF_FFFFu32
        == 0 ==> x == (x & 0x8000_0000u32)) && (0u32 | 0x0080_0000u32) << 8u32
        == 0x8000_0000u32) by (bit_vector)
        requires
            one == 0x3F80_0000u32,
    ;
    let psign = x & SIGN32;
    if x_abs == 0 {
    } else {
        lemma_normalize32_props(x_abs & SIG_MASK32);
        lemma_op_sig32_bound(x_abs);
        let a_sig = op_sig32(x_abs);
        let a_s = a_sig | IMPLICIT32;
        lemma_or_implicit32(a_sig);
        // The product against a unit significand is the significand shifted
        // into the high word less one bit.
        let q: u32 = (a_s / 2) as u32;
        let rm: u32 = (a_s % 2) as u32;
        vstd::arithmetic::div_mod::lemma_fundamental_div_mod(a_s as int, 2);
        assert((a_s as int) * 0x8000_0000 == (q as int) * 0x1_0000_0000 + (rm as int)
            * 0x8000_0000) by (nonlinear_arith)
            requires
                (a_s as int) == 2 * (q as int) + (rm as int),
        ;
        vstd::arithmetic::div_mod::lemma_fundamental_div_mod_converse(
            (a_s as int) * 0x8000_0000,
            0x1_0000_0000,
            q as int,
            (rm as int) * 0x8000_0000,
        );
        let p = wide_mul32_spec(a_s, 0x8000_0000u32);
        assert(p.0 == q && p.1 == rm * 0x8000_0000);
        assert(q & 0x0080_0000u32 == 0 && ((((q as u64) << 32u32) | ((rm * 0x8000_0000u32) as u64))
            << 1u32) >> 32u32 == 2 * (q as u64) + (rm as u64) && ((((q as u64) << 32u32) | ((rm
            * 0x8000_0000u32) as u64)) << 1u32) as u32 == 0) by (bit_vector)
            requires
                q < 0x0080_0000u32,
                rm <= 1,
        ;
        let hi0 = crate::bits32::wide_shl32_spec(p.0, p.1, 1).0;
        let lo0 = crate::bits32::wide_shl32_spec(p.0, p.1, 1).1;
        assert(hi0 == a_s && lo0 == 0);
        if x_abs >= IMPLICIT32 {
            let peu: u32 = x_abs >> SIG_BITS32;
            assert((((a_s & 0x007F_FFFFu32) | (peu << 23u32)) | psign) == x)
                by (bit_vector)
                requires
                    a_s == ((x & 0x7FFF_FFFFu32) & 0x007F_FFFFu32) | 0x0080_0000u32,
                    peu == (x & 0x7FFF_FFFFu32) >> 23u32,
                    0x0080_0000u32 <= (x & 0x7FFF_FFFFu32) < 0x7F80_0000u32,
                    psign == x & 0x8000_0000u32,
            ;
        } else {
            let adj = normalize32_spec(x_abs & SIG_MASK32).0;
            let sh: u32 = (1 - adj) as u32;
            assert(1 <= sh <= 23);
            vstd::arithmetic::power2::lemma2_to64();
            lemma_u32_shl_is_mul(x_abs, sh);
            assert(a_sig == x_abs << sh);
            vstd::bits::lemma_u32_shr_is_div(a_sig, sh);
            vstd::arithmetic::div_mod::lemma_div_by_multiple(
                x_abs as int,
                pow2(sh as nat) as int,
            );
            assert(x_abs == a_sig >> sh);
            assert((a_sig | 0x0080_0000u32) == a_sig && ((((a_sig as u64) << 32u32) | (
            0u32 as u64)) >> sh) >> 32u32 == (x_abs as u64) && (((((a_sig as u64) << 32u32) | (
            0u32 as u64)) >> sh) as u32) == 0 && ((((a_sig as u64) << 32u32) | (0u32 as u64)) << ((
            64 - sh) as u32)) == 0 && (0u32 | 0u32) == 0u32 && (x_abs | psign) == x)
                by (bit_vector)
                requires
                    1 <= sh <= 23,
                    x_abs == a_sig >> sh,
                    a_sig == x_abs << sh,
                    0x0080_0000u32 <= a_sig < 0x0100_0000u32,
                    x_abs == x & 0x7FFF_FFFFu32,
                    psign == x & 0x8000_0000u32,
            ;
            assert(a_s == a_sig);
            let srs = crate::bits32::wide_shr_sticky32_spec(a_s, 0, sh);
            assert(srs.0 == x_abs && srs.1 == 0);
        }
    }
}

/// Multiplying any finite double-width pattern by one returns it unchanged.
pub proof fn lemma_mul_identity64(x: u64)
    requires
        is_finite64(x),
    ensures
        mul_bits64(x, 0x3FF0_0000_0000_0000u64) == x,
{
    let one: u64 = 0x3FF0_0000_0000_0000u64;
    let x_abs = x & ABS64;
    lemma_decompose64(x);
    assert(one & 0x7FFF_FFFF_FFFF_FFFFu64 == one && one & 0x000F_FFFF_FFFF_FFFFu64 == 0 && ((x
        ^ one) & 0x8000_0000_0000_0000u64) == (x & 0x8000_0000_0000_0000u64) && one >> 52u32
        == 1023 && (x & 0x7FFF_FFFF_FFFF_FFFFu64 == 0 ==> x == (x & 0x8000_0000_0000_0000u64))
        && (0u64 | 0x0010_0000_0000_0000u64) << 11u32 == 0x8000_0000_0000_0000u64)
        by (bit_vector)
        requires
            one == 0x3FF0_0000_0000_0000u64,
    ;
    let psign = x & SIGN64;
    if x_abs == 0 {
    } else {
        lemma_normalize64_props(x_abs & SIG_MASK64);
        lemma_op_sig64_bound(x_abs);
        let a_sig = op_sig64(x_abs);
        let a_s = a_sig | IMPLICIT64;
        lemma_or_implicit64(a_sig);
        let q: u64 = (a_s / 2) as u64;
        let rm: u64 = (a_s % 2) as u64;
        vstd::arithmetic::div_mod::lemma_fundamental_div_mod(a_s as int, 2);
        assert((a_s as int) * 0x8000_0000_0000_0000 == (q as int) * 0x1_0000_0000_0000_0000 + (
        rm as int) * 0x8000_0000_0000_0000) by (nonlinear_arith)
            requires
                (a_s as int) == 2 * (q as int) + (rm as int),
        ;
        vstd::arithmetic::div_mod::lemma_fundamental_div_mod_converse(
            (a_s as int) * 0x8000_0000_0000_0000,
            0x1_0000_0000_0000_0000,
            q as int,
            (rm as int) * 0x8000_0000_0000_0000,
        );
        let p = wide_mul64_spec(a_s, 0x8000_0000_0000_0000u64);
        assert(p.0 == q && p.1 == rm * 0x8000_0000_0000_0000);
        assert(q & 0x0010_0000_0000_0000u64 == 0 && ((((q as u128) << 64u32) | ((rm
            * 0x8000_0000_0000_0000u64) as u128)) << 1u32) >> 64u32 == 2 * (q as u128) + (
        rm as u128) && ((((q as u128) << 64u32) | ((rm * 0x8000_0000_0000_0000u64) as u128))
            << 1u32) as u64 == 0) by (bit_vector)
            requires
                q < 0x0010_0000_0000_0000u64,
                rm <= 1,
        ;
        let hi0 = crate::bits64::wide_shl64_spec(p.0, p.1, 1).0;
        let lo0 = crate::bits64::wide_shl64_spec(p.0, p.1, 1).1;
        assert(hi0 == a_s && lo0 == 0);
        if x_abs >= IMPLICIT64 {
            let peu: u64 = x_abs >> SIG_BITS64;
            assert((((a_s & 0x000F_FFFF_FFFF_FFFFu64) | (peu << 52u32)) | psign) == x)
                by (bit_vector)
                requires
                    a_s == ((x & 0x7FFF_FFFF_FFFF_FFFFu64) & 0x000F_FFFF_FFFF_FFFFu64)
                        | 0x0010_0000_0000_0000u64,
                    peu == (x & 0x7FFF_FFFF_FFFF_FFFFu64) >> 52u32,
                    0x0010_0000_0000_0000u64 <= (x & 0x7FFF_FFFF_FFFF_FFFFu64)
                        < 0x7FF0_0000_0000_0000u64,
                    psign == x & 0x8000_0000_0000_0000u64,
            ;
        } else {
            let adj = normalize64_spec(x_abs & SIG_MASK64).0;
            let sh: u32 = (1 - adj) as u32;
            assert(1 <= sh <= 52);
            vstd::arithmetic::power2::lemma2_to64();
            vstd::arithmetic::power2::lemma2_to64_rest();
            lemma_u64_shl_is_mul(x_abs, sh as u64);
            assert(a_sig == x_abs << (sh as u64));
            vstd::bits::lemma_u64_shr_is_div(a_sig, sh as u64);
            vstd::arithmetic::div_mod::lemma_div_by_multiple(
                x_abs as int,
                pow2(sh as nat) as int,
            );
            assert(x_abs == a_sig >> (sh as u64));
            assert((a_sig | 0x0010_0000_0000_0000u64) == a_sig && ((((a_sig as u128) << 64u32) | (
            0u64 as u128)) >> sh) >> 64u32 == (x_abs as u128) && (((((a_sig as u128) << 64u32) | (
            0u64 as u128)) >> sh) as u64) == 0 && ((((a_sig as u128) << 64u32) | (0u64 as u128))
                << ((128 - sh) as u32)) == 0 && (0u64 | 0u64) == 0u64 && (x_abs | psign) == x)
                by (bit_vector)
                requires
                    1 <= sh <= 52,
                    x_abs == a_sig >> (sh as u64),
                    a_sig == x_abs << (sh as u64),
                    0x0010_0000_0000_0000u64 <= a_sig < 0x0020_0000_0000_0000u64,
                    x_abs == x & 0x7FFF_FFFF_FFFF_FFFFu64,
                    psign == x & 0x8000_0000_0000_0000u64,
            ;
            assert(a_s == a_sig);
            let srs = crate::bits64::wide_shr_sticky64_spec(a_s, 0, sh);
            assert(srs.0 == x_abs && srs.1 == 0);
        }
    }
}


/// Integers within the single width's significand precision survive the
/// round trip exactly: converting such an integer to a floating pattern
/// gives a finite value in the signed word's range whose truncation is the
/// integer itself, so converting back returns it unchanged.
pub proof fn lemma_int_float_round_trip32(n: i32)
    requires
        -0x00FF_FFFF <= n <= 0x00FF_FFFF,
    ensures
        ({
            let y = crate::conversion::itf32_spec(n < 0, crate::conversion::mag_of_i32(n));
            &&& !is_nan32(y)
            &&& (n == 0 ==> y == 0)
            &&& (n != 0 ==> crate::bits32::BIAS32 <= crate::bits32::biased_exp32(y)
                < crate::bits32::BIAS32 + 31)
            &&& (n > 0 ==> crate::bits32::sign32(y) == 0 && crate::conversion::trunc_mag32(y)
                == n)
            &&& (n < 0 ==> crate::bits32::sign32(y) != 0 && crate::conversion::trunc_mag32(y)
                == -n)
        }),
{
    let m = crate::conversion::mag_of_i32(n);
    if n == 0 {
        lemma_decompose32(0u32);
    } else {
        vstd::std_specs::bits::axiom_u64_leading_zeros(m);
        let zz: u32 = vstd::std_specs::bits::u64_leading_zeros(m) as u32;
        assert(zz >= 40 && ((m << ((zz - 40) as u32)) as u32) < 0x0100_0000u32 && ((m << ((zz
            - 40) as u32)) as u32) >= 0x0080_0000u32 && (m << ((zz - 40) as u32))
            < 0x0100_0000u64) by (bit_vector)
            requires
                m != 0,
                zz < 64,
                m >> ((64 - zz) as u32) == 0,
                (m >> ((63 - zz) as u32)) & 1 != 0,
                m < 0x0100_0000u64,
        ;
        let sd = 64 - zz;
        let c: u32 = (24 - sd) as u32;
        let e: u32 = (sd + 126) as u32;
        vstd::arithmetic::power2::lemma2_to64();
        if (c as nat) < 23 {
            vstd::arithmetic::power2::lemma_pow2_strictly_increases(c as nat, 23);
        }
        assert(m * pow2(c as nat) <= 0x0100_0000 * 0x0080_0000) by (nonlinear_arith)
            requires
                m < 0x0100_0000u64,
                pow2(c as nat) <= 0x0080_0000,
        ;
        vstd::bits::lemma_u64_shl_is_mul(m, c as u64);
        let sigv: u32 = (m << c) as u32;
        assert(sigv == m * pow2(c as nat));
        let su: u32 = if n < 0 {
            0x8000_0000u32
        } else {
            0u32
        };
        let y = crate::conversion::itf32_spec(n < 0, m);
        assert(y == ((su | ((e << 23u32) & 0x7F80_0000u32)) | (sigv & 0x007F_FFFFu32)));
        assert((((su | ((e << 23u32) & 0x7F80_0000u32)) | (sigv & 0x007F_FFFFu32)) >> 23u32)
            & 255u32 == e && ((((su | ((e << 23u32) & 0x7F80_0000u32)) | (sigv
            & 0x007F_FFFFu32)) & 0x007F_FFFFu32) | 0x0080_0000u32) == sigv && (((su | ((e
            << 23u32) & 0x7F80_0000u32)) | (sigv & 0x007F_FFFFu32)) & 0x8000_0000u32) == su && (((
        su | ((e << 23u32) & 0x7F80_0000u32)) | (sigv & 0x007F_FFFFu32)) & 0x7FFF_FFFFu32)
            < 0x7F80_0000u32) by (bit_vector)
            requires
                127 <= e <= 150,
                0x0080_0000u32 <= sigv < 0x0100_0000u32,
                su == 0 || su == 0x8000_0000u32,
        ;
        if c == 0 {
            assert(c as nat == 0nat);
            assert(pow2(c as nat) == 1);
            assert(sigv == m * 1) by (nonlinear_arith)
                requires
                    sigv == m * pow2(c as nat),
                    pow2(c as nat) == 1,
            ;
            assert(sigv == m);
            assert(crate::conversion::trunc_mag32(y) == sigv * pow2(0));
        } else {
            vstd::arithmetic::div_mod::lemma_div_by_multiple(m as int, pow2(c as nat) as int);
            assert(crate::conversion::trunc_mag32(y) == (sigv as int) / (pow2(c as nat) as int));
        }
    }
}

/// The round-trip law for the double width and the signed double word.
pub proof fn lemma_int_float_round_trip64(n: i64)
    requires
        -0x001F_FFFF_FFFF_FFFF <= n <= 0x001F_FFFF_FFFF_FFFF,
    ensures
        ({
            let y = crate::conversion::itf64_spec(n < 0, crate::conversion::mag_of_i64(n));
            &&& !is_nan64(y)
            &&& (n == 0 ==> y == 0)
            &&& (n != 0 ==> crate::bits64::BIAS64 <= crate::bits64::biased_exp64(y)
                < crate::bits64::BIAS64 + 63)
            &&& (n > 0 ==> crate::bits64::sign64(y) == 0 && crate::conversion::trunc_mag64(y)
                == n)
            &&& (n < 0 ==> crate::bits64::sign64(y) != 0 && crate::conversion::trunc_mag64(y)
                == -n)
        }),
{
    let m = crate::conversion::mag_of_i64(n);
    if n == 0 {
        lemma_decompose64(0u64);
    } else {
        vstd::std_specs::bits::axiom_u64_leading_zeros(m);
        let zz: u32 = vstd::std_specs::bits::u64_leading_zeros(m) as u32;
        assert(zz >= 11 && (m << ((zz - 11) as u32)) < 0x0020_0000_0000_0000u64 && (m << ((zz
            - 11) as u32)) >= 0x0010_0000_0000_0000u64 && (zz >= 11 ==> m < (1u64 << ((64
            - zz) as u32)))) by (bit_vector)
            requires
                m != 0,
                zz < 64,
                m >> ((64 - zz) as u32) == 0,
                (m >> ((63 - zz) as u32)) & 1 != 0,
                m < 0x0020_0000_0000_0000u64,
        ;
        let sd = 64 - zz;
        let c: u32 = (53 - sd) as u32;
        let e: u64 = (sd + 1022) as u64;
        vstd::arithmetic::power2::lemma2_to64();
        vstd::arithmetic::power2::lemma2_to64_rest();
        vstd::bits::lemma_u64_pow2_no_overflow((64 - zz) as nat);
        vstd::bits::lemma_u64_shl_is_mul(1u64, (64 - zz) as u64);
        assert(m < pow2((64 - zz) as nat));
        assert(m * pow2(c as nat) < pow2((64 - zz) as nat) * pow2(c as nat)) by {
            vstd::arithmetic::power2::lemma_pow2_pos(c as nat);
            vstd::arithmetic::mul::lemma_mul_strict_inequality(
                m as int,
                pow2((64 - zz) as nat) as int,
                pow2(c as nat) as int,
            );
        }
        vstd::arithmetic::power2::lemma_pow2_adds((64 - zz) as nat, c as nat);
        vstd::bits::lemma_u64_shl_is_mul(m, c as u64);
        let sigv: u64 = m << c;
        assert(sigv == m * pow2(c as nat));
        let su: u64 = if n < 0 {
            0x8000_0000_0000_0000u64
        } else {
            0u64
        };
        let y = crate::conversion::itf64_spec(n < 0, m);
        assert(y == ((su | ((e << 52u32) & 0x7FF0_0000_0000_0000u64)) | (sigv
            & 0x000F_FFFF_FFFF_FFFFu64)));
        assert((((su | ((e << 52u32) & 0x7FF0_0000_0000_0000u64)) | (sigv
            & 0x000F_FFFF_FFFF_FFFFu64)) >> 52u32) & 2047u64 == e && ((((su | ((e << 52u32)
            & 0x7FF0_0000_0000_0000u64)) | (sigv & 0x000F_FFFF_FFFF_FFFFu64))
            & 0x000F_FFFF_FFFF_FFFFu64) | 0x0010_0000_0000_0000u64) == sigv && (((su | ((e
            << 52u32) & 0x7FF0_0000_0000_0000u64)) | (sigv & 0x000F_FFFF_FFFF_FFFFu64))
            & 0x8000_0000_0000_0000u64) == su && (((su | ((e << 52u32)
            & 0x7FF0_0000_0000_0000u64)) | (sigv & 0x000F_FFFF_FFFF_FFFFu64))
            & 0x7FFF_FFFF_FFFF_FFFFu64) < 0x7FF0_0000_0000_0000u64) by (bit_vector)
            requires
                1023 <= e <= 1075,
                0x0010_0000_0000_0000u64 <= sigv < 0x0020_0000_0000_0000u64,
                su == 0 || su == 0x8000_0000_0000_0000u64,
        ;
        if c == 0 {
            assert(c as nat == 0nat);
            assert(pow2(c as nat) == 1);
            assert(sigv == m * 1) by (nonlinear_arith)
                requires
                    sigv == m * pow2(c as nat),
                    pow2(c as nat) == 1,
            ;
            assert(sigv == m);
            assert(crate::conversion::trunc_mag64(y) == sigv * pow2(0));
        } else {
            vstd::arithmetic::div_mod::lemma_div_by_multiple(m as int, pow2(c as nat) as int);
            assert(crate::conversion::trunc_mag64(y) == (sigv as int) / (pow2(c as nat) as int));
        }
    }
}

} // verus!

