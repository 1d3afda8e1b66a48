//! Multiply engine: correctly-rounded products of floating bit patterns,
//! computed through the double-width significand product of the format
//! descriptor.
//!
//! Each executable entry point is proved to return exactly the value of its
//! specification mirror, which restates the algorithm over unbounded
//! integers: special-value triage, subnormal renormalization, double-width
//! product, exponent saturation or denormalization, and round-to-nearest-even
//! on the discarded low half.

use vstd::prelude::*;

verus! {

use crate::bits32::{ABS32, SIGN32, SIG_MASK32, IMPLICIT32, EXP_MASK32, QUIET32, QNAN32,
    EXP_MAX32, EXP_BITS32, SIG_BITS32, BIAS32, BITS32, normalize32_spec, normalize32,
    wide_mul32_spec, wide_mul32, wide_shl32_spec, wide_shl32, wide_shr_sticky32_spec,
    wide_shr_sticky32, lemma_decompose32, lemma_pair32, lemma_or_implicit32, lemma_low_bit32,
    lemma_assemble32, lemma_attach_sign32};
use crate::bits64::{ABS64, SIGN64, SIG_MASK64, IMPLICIT64, EXP_MASK64, QUIET64, QNAN64,
    EXP_MAX64, EXP_BITS64, SIG_BITS64, BIAS64, BITS64, normalize64_spec, normalize64,
    wide_mul64_spec, wide_mul64, wide_shl64_spec, wide_shl64, wide_shr_sticky64_spec,
    wide_shr_sticky64, lemma_decompose64, lemma_pair64, lemma_or_implicit64, lemma_low_bit64,
    lemma_assemble64, lemma_attach_sign64};

/// Round-to-nearest-even step shared by this engine and the divide engine's
/// denormal path: `lo` holds the discarded fraction scaled so that its
/// half-way point is the sign-bit position; round up on strictly more than
/// half, and to even on an exact tie.
pub open spec fn round_bits32(hi: u32, lo: u32) -> u32 {
    let h1 = if lo > SIGN32 {
        (hi + 1) as u32
    } else {
        hi
    };
    if lo == SIGN32 {
        (h1 + (h1 & 1)) as u32
    } else {
        h1
    }
}

/// Same rounding step for the double width.
pub open spec fn round_bits64(hi: u64, lo: u64) -> u64 {
    let h1 = if lo > SIGN64 {
        (hi + 1) as u64
    } else {
        hi
    };
    if lo == SIGN64 {
        (h1 + (h1 & 1)) as u64
    } else {
        h1
    }
}

/// The product of two finite, nonzero single-width patterns.
pub open spec fn mul_finite32(a: u32, b: u32) -> u32 {
    let a_abs = a & ABS32;
    let b_abs = b & ABS32;
    let psign = (a ^ b) & SIGN32;
    let a_adj = if a_abs < IMPLICIT32 {
        normalize32_spec(a_abs & SIG_MASK32).0
    } else {
        0int
    };
    let a_sig = if a_abs < IMPLICIT32 {
        normalize32_spec(a_abs & SIG_MASK32).1
    } else {
        a_abs & SIG_MASK32
    };
    let b_adj = if b_abs < IMPLICIT32 {
        normalize32_spec(b_abs & SIG_MASK32).0
    } else {
        0int
    };
    let b_sig = if b_abs < IMPLICIT32 {
        normalize32_spec(b_abs & SIG_MASK32).1
    } else {
        b_abs & SIG_MASK32
    };
    let pe0 = ((a_abs >> SIG_BITS32) as int) + ((b_abs >> SIG_BITS32) as int) + a_adj + b_adj
        - BIAS32;
    let p = wide_mul32_spec(a_sig | IMPLICIT32, (b_sig | IMPLICIT32) << EXP_BITS32);
    let hi0 = if p.0 & IMPLICIT32 != 0 {
        p.0
    } else {
        wide_shl32_spec(p.0, p.1, 1).0
    };
    let lo0 = if p.0 & IMPLICIT32 != 0 {
        p.1
    } else {
        wide_shl32_spec(p.0, p.1, 1).1
    };
    let pe = if p.0 & IMPLICIT32 != 0 {
        pe0 + 1
    } else {
        pe0
    };
    if pe >= EXP_MAX32 {
        EXP_MASK32 | psign
    } else if pe <= 0 {
        let shift = (1 - pe) as u32;
        if shift >= BITS32 {
            psign
        } else {
            let s = wide_shr_sticky32_spec(hi0, lo0, shift);
            round_bits32(s.0 | psign, s.1)
        }
    } else {
        round_bits32(((hi0 & SIG_MASK32) | ((pe as u32) << SIG_BITS32)) | psign, lo0)
    }
}

/// The correctly-rounded product of two single-width patterns: NaNs
/// propagate quieted, infinity times a nonzero value is infinity with the
/// XOR of the signs, infinity times zero is the canonical quiet NaN, zero
/// times a finite value is a signed zero, and finite nonzero operands take
/// the rounded double-width product.
pub open spec fn mul_bits32(a: u32, b: u32) -> u32 {
    let a_abs = a & ABS32;
    let b_abs = b & ABS32;
    let psign = (a ^ b) & SIGN32;
    if a_abs > EXP_MASK32 {
        a_abs | QUIET32
    } else if b_abs > EXP_MASK32 {
        b_abs | QUIET32
    } else if a_abs == EXP_MASK32 {
        if b_abs != 0 {
            a_abs | psign
        } else {
            QNAN32
        }
    } else if b_abs == EXP_MASK32 {
        if a_abs != 0 {
            b_abs | psign
        } else {
            QNAN32
        }
    } else if a_abs == 0 {
        psign
    } else if b_abs == 0 {
        psign
    } else {
        mul_finite32(a, b)
    }
}

/// Single-width multiplication: returns the product bit pattern described by
/// [`mul_bits32`].
pub fn __mulsf3(a: u32, b: u32) -> (r: u32)
    ensures
        r == mul_bits32(a, b),
{
    let a_abs: u32 = a & ABS32;
    let b_abs: u32 = b & ABS32;
    let psign: u32 = (a ^ b) & SIGN32;
    if a_abs > EXP_MASK32 {
        return a_abs | QUIET32;
    }
    if b_abs > EXP_MASK32 {
        return b_abs | QUIET32;
    }
    if a_abs == EXP_MASK32 {
        return if b_abs != 0 {
            a_abs | psign
        } else {
            QNAN32
        };
    }
    if b_abs == EXP_MASK32 {
        return if a_abs != 0 {
            b_abs | psign
        } else {
            QNAN32
        };
    }
    if a_abs == 0 {
        return psign;
    }
    if b_abs == 0 {
        return psign;
    }
    proof {
        lemma_decompose32(a);
        lemma_decompose32(b);
        lemma_pair32(a, b);
    }
    let mut scale: i32 = 0;
    let mut a_sig: u32 = a_abs & SIG_MASK32;
    let mut b_sig: u32 = b_abs & SIG_MASK32;
    if a_abs < IMPLICIT32 {
        let n: (i32, u32) = normalize32(a_sig);
        scale = scale + n.0;
        a_sig = n.1;
    }
    if b_abs < IMPLICIT32 {
        let n: (i32, u32) = normalize32(b_sig);
        scale = scale + n.0;
        b_sig = n.1;
    }
    proof {
        lemma_or_implicit32(a_sig);
    }
    let a_s: u32 = a_sig | IMPLICIT32;
    let b_s: u32 = (b_sig | IMPLICIT32) << EXP_BITS32;
    let p: (u32, u32) = wide_mul32(a_s, b_s);
    let mut hi: u32 = p.0;
    let mut lo: u32 = p.1;
    proof {
        assert((p.0 as int) * 0x1_0000_0000 + p.1 == (a_s as int) * (b_s as int));
        assert((a_s as int) * (b_s as int) < 0x0100_0000 * 0x1_0000_0000) by (nonlinear_arith)
            requires
                a_s < 0x0100_0000,
                b_s <= 0xFFFF_FFFFu32,
        ;
        assert(p.0 < 0x0100_0000);
    }
    let mut pe: i32 = (a_abs >> SIG_BITS32) as i32 + (b_abs >> SIG_BITS32) as i32 + scale - 127;
    if hi & IMPLICIT32 != 0 {
        pe = pe + 1;
    } else {
        let s: (u32, u32) = wide_shl32(hi, lo, 1);
        hi = s.0;
        lo = s.1;
        proof {
            let ph: u32 = p.0;
            let pl: u32 = p.1;
            let v: u64 = ((ph as u64) << 32u32) | (pl as u64);
            assert((v == (ph as u64) * 0x1_0000_0000 + (pl as u64)) && (ph
                < 0x0100_0000u64 ==> ((v << 1u32) >> 32u32) < 0x0200_0000 && ((v << 1u32)
                >> 32u32) as u32 == ((v << 1u32) >> 32u32))) by (bit_vector)
                requires
                    v == ((ph as u64) << 32u32) | (pl as u64),
            ;
        }
    }
    if pe >= 255 {
        return EXP_MASK32 | psign;
    }
    if pe <= 0 {
        let shift: u32 = (1 - pe) as u32;
        if shift >= BITS32 {
            return psign;
        }
        let s: (u32, u32) = wide_shr_sticky32(hi, lo, shift);
        proof {
            let v: u64 = ((hi as u64) << 32u32) | (lo as u64);
            assert(((v >> shift) >> 32u32) <= 0x0100_0000 && ((v >> shift) >> 32u32) as u32 == ((v
                >> shift) >> 32u32)) by (bit_vector)
                requires
                    v == ((hi as u64) << 32u32) | (lo as u64),
                    1 <= shift < 32,
                    hi < 0x0200_0000u32,
            ;
        }
        hi = s.0 | psign;
        lo = s.1;
        proof {
            lemma_attach_sign32(s.0, psign);
        }
    } else {
        proof {
            lemma_assemble32(hi, pe as u32, psign);
        }
        hi = ((hi & SIG_MASK32) | ((pe as u32) << SIG_BITS32)) | psign;
    }
    if lo > SIGN32 {
        hi = hi + 1;
    }
    if lo == SIGN32 {
        proof {
            lemma_low_bit32(hi);
        }
        hi = hi + (hi & 1);
    }
    hi
}

/// The product of two finite, nonzero double-width patterns.
pub open spec fn mul_finite64(a: u64, b: u64) -> u64 {
    let a_abs = a & ABS64;
    let b_abs = b & ABS64;
    let psign = (a ^ b) & SIGN64;
    let a_adj = if a_abs < IMPLICIT64 {
        normalize64_spec(a_abs & SIG_MASK64).0
    } else {
        0int
    };
    let a_sig = if a_abs < IMPLICIT64 {
        normalize64_spec(a_abs & SIG_MASK64).1
    } else {
        a_abs & SIG_MASK64
    };
    let b_adj = if b_abs < IMPLICIT64 {
        normalize64_spec(b_abs & SIG_MASK64).0
    } else {
        0int
    };
    let b_sig = if b_abs < IMPLICIT64 {
        normalize64_spec(b_abs & SIG_MASK64).1
    } else {
        b_abs & SIG_MASK64
    };
    let pe0 = ((a_abs >> SIG_BITS64) as int) + ((b_abs >> SIG_BITS64) as int) + a_adj + b_adj
        - BIAS64;
    let p = wide_mul64_spec(a_sig | IMPLICIT64, (b_sig | IMPLICIT64) << EXP_BITS64);
    let hi0 = if p.0 & IMPLICIT64 != 0 {
        p.0
    } else {
        wide_shl64_spec(p.0, p.1, 1).0
    };
    let lo0 = if p.0 & IMPLICIT64 != 0 {
        p.1
    } else {
        wide_shl64_spec(p.0, p.1, 1).1
    };
    let pe = if p.0 & IMPLICIT64 != 0 {
        pe0 + 1
    } else {
        pe0
    };
    if pe >= EXP_MAX64 {
        EXP_MASK64 | psign
    } else if pe <= 0 {
        let shift = (1 - pe) as u32;
        if shift >= BITS64 {
            psign
        } else {
            let s = wide_shr_sticky64_spec(hi0, lo0, shift);
            round_bits64(s.0 | psign, s.1)
        }
    } else {
        round_bits64(((hi0 & SIG_MASK64) | ((pe as u64) << SIG_BITS64)) | psign, lo0)
    }
}

/// The correctly-rounded product of two double-width patterns; the cases
/// match [`mul_bits32`].
pub open spec fn mul_bits64(a: u64, b: u64) -> u64 {
    let a_abs = a & ABS64;
    let b_abs = b & ABS64;
    let psign = (a ^ b) & SIGN64;
    if a_abs > EXP_MASK64 {
        a_abs | QUIET64
    } else if b_abs > EXP_MASK64 {
        b_abs | QUIET64
    } else if a_abs == EXP_MASK64 {
        if b_abs != 0 {
            a_abs | psign
        } else {
            QNAN64
        }
    } else if b_abs == EXP_MASK64 {
        if a_abs != 0 {
            b_abs | psign
        } else {
            QNAN64
        }
    } else if a_abs == 0 {
        psign
    } else if b_abs == 0 {
        psign
    } else {
        mul_finite64(a, b)
    }
}

/// Double-width multiplication: returns the product bit pattern described by
/// [`mul_bits64`].
pub fn __muldf3(a: u64, b: u64) -> (r: u64)
    ensures
        r == mul_bits64(a, b),
{
    let a_abs: u64 = a & ABS64;
    let b_abs: u64 = b & ABS64;
    let psign: u64 = (a ^ b) & SIGN64;
    if a_abs > EXP_MASK64 {
        return a_abs | QUIET64;
    }
    if b_abs > EXP_MASK64 {
        return b_abs | QUIET64;
    }
    if a_abs == EXP_MASK64 {
        return if b_abs != 0 {
            a_abs | psign
        } else {
            QNAN64
        };
    }
    if b_abs == EXP_MASK64 {
        return if a_abs != 0 {
            b_abs | psign
        } else {
            QNAN64
        };
    }
    if a_abs == 0 {
        return psign;
    }
    if b_abs == 0 {
        return psign;
    }
    proof {
        lemma_decompose64(a);
        lemma_decompose64(b);
        lemma_pair64(a, b);
    }
    let mut scale: i32 = 0;
    let mut a_sig: u64 = a_abs & SIG_MASK64;
    let mut b_sig: u64 = b_abs & SIG_MASK64;
    if a_abs < IMPLICIT64 {
        let n: (i32, u64) = normalize64(a_sig);
        scale = scale + n.0;
        a_sig = n.1;
    }
    if b_abs < IMPLICIT64 {
        let n: (i32, u64) = normalize64(b_sig);
        scale = scale + n.0;
        b_sig = n.1;
    }
    proof {
        lemma_or_implicit64(a_sig);
    }
    let a_s: u64 = a_sig | IMPLICIT64;
    let b_s: u64 = (b_sig | IMPLICIT64) << EXP_BITS64;
    let p: (u64, u64) = wide_mul64(a_s, b_s);
    let mut hi: u64 = p.0;
    let mut lo: u64 = p.1;
    proof {
        assert((p.0 as int) * 0x1_0000_0000_0000_0000 + p.1 == (a_s as int) * (b_s as int));
        assert((a_s as int) * (b_s as int) < 0x0020_0000_0000_0000 * 0x1_0000_0000_0000_0000)
            by (nonlinear_arith)
            requires
                a_s < 0x0020_0000_0000_0000,
                b_s <= 0xFFFF_FFFF_FFFF_FFFFu64,
        ;
        assert(p.0 < 0x0020_0000_0000_0000);
    }
    let mut pe: i32 = (a_abs >> SIG_BITS64) as i32 + (b_abs >> SIG_BITS64) as i32 + scale - 1023;
    if hi & IMPLICIT64 != 0 {
        pe = pe + 1;
    } else {
        let s: (u64, u64) = wide_shl64(hi, lo, 1);
        hi = s.0;
        lo = s.1;
        proof {
            let ph: u64 = p.0;
            let pl: u64 = p.1;
            let v: u128 = ((ph as u128) << 64u32) | (pl as u128);
            assert((v == (ph as u128) * 0x1_0000_0000_0000_0000 + (pl as u128)) && (ph
                < 0x0020_0000_0000_0000u128 ==> ((v << 1u32) >> 64u32) < 0x0040_0000_0000_0000
                && ((v << 1u32) >> 64u32) as u64 == ((v << 1u32) >> 64u32))) by (bit_vector)
                requires
                    v == ((ph as u128) << 64u32) | (pl as u128),
            ;
        }
    }
    if pe >= 2047 {
        return EXP_MASK64 | psign;
    }
    if pe <= 0 {
        let shift: u32 = (1 - pe) as u32;
        if shift >= BITS64 {
            return psign;
        }
        let s: (u64, u64) = wide_shr_sticky64(hi, lo, shift);
        proof {
            let v: u128 = ((hi as u128) << 64u32) | (lo as u128);
            assert(((v >> shift) >> 64u32) <= 0x0020_0000_0000_0000 && ((v >> shift)
                >> 64u32) as u64 == ((v >> shift) >> 64u32)) by (bit_vector)
                requires
                    v == ((hi as u128) << 64u32) | (lo as u128),
                    1 <= shift < 64,
                    hi < 0x0040_0000_0000_0000u64,
            ;
        }
        hi = s.0 | psign;
        lo = s.1;
        proof {
            lemma_attach_sign64(s.0, psign);
        }
    } else {
        proof {
            lemma_assemble64(hi, pe as u64, psign);
        }
        hi = ((hi & SIG_MASK64) | ((pe as u64) << SIG_BITS64)) | psign;
    }
    if lo > SIGN64 {
        hi = hi + 1;
    }
    if lo == SIGN64 {
        proof {
            lemma_low_bit64(hi);
        }
        hi = hi + (hi & 1);
    }
    hi
}

} // verus!
