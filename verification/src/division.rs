//! Divide engine: correctly-rounded quotients of floating bit patterns.
//!
//! The quotient estimate comes from a Newton–Raphson reciprocal approximation
//! of the divisor's significand (biased two units downward so the estimate
//! never exceeds the true quotient), multiplied against the dividend's
//! significand in double width. The exact residual
//! `dividend - quotient * divisor` then drives the final rounding decision.
//! Quotients below the smallest normal exponent flush to a signed zero;
//! those at or above the maximum exponent saturate to a signed infinity.

use vstd::prelude::*;

verus! {

use vstd::wrapping::{u32_specs, u64_specs};
use crate::bits32::{ABS32, SIGN32, SIG_MASK32, IMPLICIT32, EXP_MASK32, QUIET32, QNAN32,
    SIG_BITS32, normalize32_spec, normalize32, wide_mul32_spec, wide_mul32, recip32_spec,
    compute_reciprocal32, lemma_decompose32, lemma_pair32, lemma_assemble32};
use crate::bits64::{ABS64, SIGN64, SIG_MASK64, IMPLICIT64, EXP_MASK64, QUIET64, QNAN64,
    SIG_BITS64, normalize64_spec, normalize64, wide_mul64_spec, wide_mul64, recip64_spec,
    compute_reciprocal64, lemma_decompose64, lemma_pair64, lemma_assemble64};

/// The quotient of two finite, nonzero single-width patterns.
pub open spec fn div_finite32(a: u32, b: u32) -> u32 {
    let a_abs = a & ABS32;
    let b_abs = b & ABS32;
    let qsign = (a ^ b) & SIGN32;
    let a_adj = if a_abs < IMPLICIT32 {
        normalize32_spec(a_abs & SIG_MASK32).0
    } else {
        0int
    };
    let a_sig0 = if a_abs < IMPLICIT32 {
        normalize32_spec(a_abs & SIG_MASK32).1
    } else {
        a_abs & SIG_MASK32
    };
    let b_adj = if b_abs < IMPLICIT32 {
        normalize32_spec(b_abs & SIG_MASK32).0
    } else {
        0int
    };
    let b_sig0 = if b_abs < IMPLICIT32 {
        normalize32_spec(b_abs & SIG_MASK32).1
    } else {
        b_abs & SIG_MASK32
    };
    let qe0 = ((a_abs >> SIG_BITS32) as int) - ((b_abs >> SIG_BITS32) as int) + a_adj - b_adj;
    let a_sig = a_sig0 | IMPLICIT32;
    let b_sig = b_sig0 | IMPLICIT32;
    let recip = u32_specs::wrapping_sub(recip32_spec(b_sig), 2u32);
    let q0 = wide_mul32_spec(a_sig << 1u32, recip).0;
    let q = if q0 < (IMPLICIT32 << 1u32) {
        q0
    } else {
        q0 >> 1u32
    };
    let qe = if q0 < (IMPLICIT32 << 1u32) {
        qe0 - 1
    } else {
        qe0
    };
    let residual = if q0 < (IMPLICIT32 << 1u32) {
        u32_specs::wrapping_sub(a_sig << 24u32, u32_specs::wrapping_mul(q, b_sig))
    } else {
        u32_specs::wrapping_sub(a_sig << 23u32, u32_specs::wrapping_mul(q, b_sig))
    };
    let written = qe + 127;
    if written >= 255 {
        EXP_MASK32 | qsign
    } else if written < 1 {
        qsign
    } else {
        let round: u32 = if (residual << 1u32) > b_sig {
            1u32
        } else {
            0u32
        };
        let abs_result = ((q & SIG_MASK32) | ((written as u32) << SIG_BITS32)) + round;
        (abs_result as u32) | qsign
    }
}

/// The correctly-rounded quotient of two single-width patterns: NaNs
/// propagate quieted, infinity over infinity and zero over zero give the
/// canonical quiet NaN, infinity over anything else is a signed infinity,
/// anything finite over infinity is a signed zero, zero over a nonzero
/// finite value is a signed zero, and a nonzero finite value over zero is a
/// signed infinity.
pub open spec fn div_bits32(a: u32, b: u32) -> u32 {
    let a_abs = a & ABS32;
    let b_abs = b & ABS32;
    let qsign = (a ^ b) & SIGN32;
    if a_abs > EXP_MASK32 {
        a_abs | QUIET32
    } else if b_abs > EXP_MASK32 {
        b_abs | QUIET32
    } else if a_abs == EXP_MASK32 {
        if b_abs == EXP_MASK32 {
            QNAN32
        } else {
            a_abs | qsign
        }
    } else if b_abs == EXP_MASK32 {
        qsign
    } else if a_abs == 0 {
        if b_abs == 0 {
            QNAN32
        } else {
            qsign
        }
    } else if b_abs == 0 {
        EXP_MASK32 | qsign
    } else {
        div_finite32(a, b)
    }
}

/// Single-width division: returns the quotient bit pattern described by
/// [`div_bits32`].
pub fn __divsf3(a: u32, b: u32) -> (r: u32)
    ensures
        r == div_bits32(a, b),
{
    let a_abs: u32 = a & ABS32;
    let b_abs: u32 = b & ABS32;
    let qsign: u32 = (a ^ b) & SIGN32;
    if a_abs > EXP_MASK32 {
        return a_abs | QUIET32;
    }
    if b_abs > EXP_MASK32 {
        return b_abs | QUIET32;
    }
    if a_abs == EXP_MASK32 {
        return if b_abs == EXP_MASK32 {
            QNAN32
        } else {
            a_abs | qsign
        };
    }
    if b_abs == EXP_MASK32 {
        return qsign;
    }
    if a_abs == 0 {
        return if b_abs == 0 {
            QNAN32
        } else {
            qsign
        };
    }
    if b_abs == 0 {
        return EXP_MASK32 | qsign;
    }
    proof {
        lemma_decompose32(a);
        lemma_decompose32(b);
        lemma_pair32(a, b);
    }
    let mut scale: i32 = 0;
    let mut a_sig0: u32 = a_abs & SIG_MASK32;
    let mut b_sig0: u32 = b_abs & SIG_MASK32;
    if a_abs < IMPLICIT32 {
        let n: (i32, u32) = normalize32(a_sig0);
        scale = scale + n.0;
        a_sig0 = n.1;
    }
    if b_abs < IMPLICIT32 {
        let n: (i32, u32) = normalize32(b_sig0);
        scale = scale - n.0;
        b_sig0 = n.1;
    }
    let a_sig: u32 = a_sig0 | IMPLICIT32;
    let b_sig: u32 = b_sig0 | IMPLICIT32;
    let mut qe: i32 = (a_abs >> SIG_BITS32) as i32 - (b_abs >> SIG_BITS32) as i32 + scale;
    let recip: u32 = compute_reciprocal32(b_sig).wrapping_sub(2);
    let p: (u32, u32) = wide_mul32(a_sig << 1u32, recip);
    let mut q: u32 = p.0;
    let residual: u32;
    if q < (IMPLICIT32 << 1u32) {
        qe = qe - 1;
        residual = (a_sig << 24u32).wrapping_sub(q.wrapping_mul(b_sig));
    } else {
        q = q >> 1u32;
        residual = (a_sig << 23u32).wrapping_sub(q.wrapping_mul(b_sig));
    }
    let written: i32 = qe + 127;
    if written >= 255 {
        return EXP_MASK32 | qsign;
    }
    if written < 1 {
        return qsign;
    }
    let round: u32 = if (residual << 1u32) > b_sig {
        1u32
    } else {
        0u32
    };
    proof {
        lemma_assemble32(q, written as u32, 0);
    }
    let abs_result: u32 = ((q & SIG_MASK32) | ((written as u32) << SIG_BITS32)) + round;
    abs_result | qsign
}

/// The quotient of two finite, nonzero double-width patterns.
pub open spec fn div_finite64(a: u64, b: u64) -> u64 {
    let a_abs = a & ABS64;
    let b_abs = b & ABS64;
    let qsign = (a ^ b) & SIGN64;
    let a_adj = if a_abs < IMPLICIT64 {
        normalize64_spec(a_abs & SIG_MASK64).0
    } else {
        0int
    };
    let a_sig0 = if a_abs < IMPLICIT64 {
        normalize64_spec(a_abs & SIG_MASK64).1
    } else {
        a_abs & SIG_MASK64
    };
    let b_adj = if b_abs < IMPLICIT64 {
        normalize64_spec(b_abs & SIG_MASK64).0
    } else {
        0int
    };
    let b_sig0 = if b_abs < IMPLICIT64 {
        normalize64_spec(b_abs & SIG_MASK64).1
    } else {
        b_abs & SIG_MASK64
    };
    let qe0 = ((a_abs >> SIG_BITS64) as int) - ((b_abs >> SIG_BITS64) as int) + a_adj - b_adj;
    let a_sig = a_sig0 | IMPLICIT64;
    let b_sig = b_sig0 | IMPLICIT64;
    let recip = u64_specs::wrapping_sub(recip64_spec(b_sig), 2u64);
    let q0 = wide_mul64_spec(a_sig << 2u32, recip).0;
    let q = if q0 < (IMPLICIT64 << 1u32) {
        q0
    } else {
        q0 >> 1u32
    };
    let qe = if q0 < (IMPLICIT64 << 1u32) {
        qe0 - 1
    } else {
        qe0
    };
    let residual = if q0 < (IMPLICIT64 << 1u32) {
        u64_specs::wrapping_sub(a_sig << 53u32, u64_specs::wrapping_mul(q, b_sig))
    } else {
        u64_specs::wrapping_sub(a_sig << 52u32, u64_specs::wrapping_mul(q, b_sig))
    };
    let written = qe + 1023;
    if written >= 2047 {
        EXP_MASK64 | qsign
    } else if written < 1 {
        qsign
    } else {
        let round: u64 = if (residual << 1u32) > b_sig {
            1u64
        } else {
            0u64
        };
        let abs_result = ((q & SIG_MASK64) | ((written as u64) << SIG_BITS64)) + round;
        (abs_result as u64) | qsign
    }
}

/// The correctly-rounded quotient of two double-width patterns; the cases
/// match [`div_bits32`].
pub open spec fn div_bits64(a: u64, b: u64) -> u64 {
    let a_abs = a & ABS64;
    let b_abs = b & ABS64;
    let qsign = (a ^ b) & SIGN64;
    if a_abs > EXP_MASK64 {
        a_abs | QUIET64
    } else if b_abs > EXP_MASK64 {
        b_abs | QUIET64
    } else if a_abs == EXP_MASK64 {
        if b_abs == EXP_MASK64 {
            QNAN64
        } else {
            a_abs | qsign
        }
    } else if b_abs == EXP_MASK64 {
        qsign
    } else if a_abs == 0 {
        if b_abs == 0 {
            QNAN64
        } else {
            qsign
        }
    } else if b_abs == 0 {
        EXP_MASK64 | qsign
    } else {
        div_finite64(a, b)
    }
}

/// Double-width division: returns the quotient bit pattern described by
/// [`div_bits64`].
pub fn __divdf3(a: u64, b: u64) -> (r: u64)
    ensures
        r == div_bits64(a, b),
{
    let a_abs: u64 = a & ABS64;
    let b_abs: u64 = b & ABS64;
    let qsign: u64 = (a ^ b) & SIGN64;
    if a_abs > EXP_MASK64 {
        return a_abs | QUIET64;
    }
    if b_abs > EXP_MASK64 {
        return b_abs | QUIET64;
    }
    if a_abs == EXP_MASK64 {
        return if b_abs == EXP_MASK64 {
            QNAN64
        } else {
            a_abs | qsign
        };
    }
    if b_abs == EXP_MASK64 {
        return qsign;
    }
    if a_abs == 0 {
        return if b_abs == 0 {
            QNAN64
        } else {
            qsign
        };
    }
    if b_abs == 0 {
        return EXP_MASK64 | qsign;
    }
    proof {
        lemma_decompose64(a);
        lemma_decompose64(b);
        lemma_pair64(a, b);
    }
    let mut scale: i32 = 0;
    let mut a_sig0: u64 = a_abs & SIG_MASK64;
    let mut b_sig0: u64 = b_abs & SIG_MASK64;
    if a_abs < IMPLICIT64 {
        let n: (i32, u64) = normalize64(a_sig0);
        scale = scale + n.0;
        a_sig0 = n.1;
    }
    if b_abs < IMPLICIT64 {
        let n: (i32, u64) = normalize64(b_sig0);
        scale = scale - n.0;
        b_sig0 = n.1;
    }
    let a_sig: u64 = a_sig0 | IMPLICIT64;
    let b_sig: u64 = b_sig0 | IMPLICIT64;
    let mut qe: i32 = (a_abs >> SIG_BITS64) as i32 - (b_abs >> SIG_BITS64) as i32 + scale;
    let recip: u64 = compute_reciprocal64(b_sig).wrapping_sub(2);
    let p: (u64, u64) = wide_mul64(a_sig << 2u32, recip);
    let mut q: u64 = p.0;
    let residual: u64;
    if q < (IMPLICIT64 << 1u32) {
        qe = qe - 1;
        residual = (a_sig << 53u32).wrapping_sub(q.wrapping_mul(b_sig));
    } else {
        q = q >> 1u32;
        residual = (a_sig << 52u32).wrapping_sub(q.wrapping_mul(b_sig));
    }
    let written: i32 = qe + 1023;
    if written >= 2047 {
        return EXP_MASK64 | qsign;
    }
    if written < 1 {
        return qsign;
    }
    let round: u64 = if (residual << 1u32) > b_sig {
        1u64
    } else {
        0u64
    };
    proof {
        lemma_assemble64(q, written as u64, 0);
    }
    let abs_result: u64 = ((q & SIG_MASK64) | ((written as u64) << SIG_BITS64)) + round;
    abs_result | qsign
}

} // verus!
