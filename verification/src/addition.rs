//! Add/subtract engine: correctly-rounded sums of floating bit patterns.
//!
//! The sum is computed by aligning the significand of the smaller-magnitude
//! operand on the larger exponent with sticky-bit accumulation, adding or
//! subtracting significands held with three guard bits, renormalizing (one
//! carry bit for addition, a cancellation left-shift for subtraction), and
//! rounding to nearest even. Subtraction is addition with the sign of the
//! second operand inverted.

use vstd::prelude::*;

verus! {

use vstd::std_specs::bits::{u32_leading_zeros, u64_leading_zeros, axiom_u32_leading_zeros,
    axiom_u64_leading_zeros};
use crate::bits32::{ABS32, SIGN32, SIG_MASK32, IMPLICIT32, EXP_MASK32, QUIET32, QNAN32,
    SIG_BITS32, normalize32_spec, normalize32, lemma_decompose32, lemma_pair32, lemma_low_bit32,
    lemma_assemble32};
use crate::bits64::{ABS64, SIGN64, SIG_MASK64, IMPLICIT64, EXP_MASK64, QUIET64, QNAN64,
    SIG_BITS64, normalize64_spec, normalize64, lemma_decompose64, lemma_pair64, lemma_low_bit64,
    lemma_assemble64};

/// The sign-negation of a single-width pattern: the sign bit inverted.
pub open spec fn negate32(x: u32) -> u32 {
    x ^ SIGN32
}

/// The sign-negation of a double-width pattern.
pub open spec fn negate64(x: u64) -> u64 {
    x ^ SIGN64
}

/// Final assembly shared by both finite paths: saturate to infinity at or
/// above the maximum exponent, denormalize below exponent one (collapsing
/// everything shifted out into the sticky bit), then round to nearest even
/// on the three guard bits.
pub open spec fn finish_add32(rsign: u32, e: int, sig: u32) -> u32 {
    if e >= 255 {
        EXP_MASK32 | rsign
    } else {
        let e1: u32 = if e <= 0 {
            0u32
        } else {
            e as u32
        };
        let sig1: u32 = if e <= 0 {
            let shift = (1 - e) as u32;
            if shift < 32 {
                let st: u32 = if sig << ((32 - shift) as u32) != 0 {
                    1u32
                } else {
                    0u32
                };
                (sig >> shift) | st
            } else {
                if sig != 0 {
                    1u32
                } else {
                    0u32
                }
            }
        } else {
            sig
        };
        let result = (((sig1 >> 3u32) & SIG_MASK32) | (e1 << SIG_BITS32)) | rsign;
        let rgs = sig1 & 7;
        let r1 = if rgs > 4 {
            (result + 1) as u32
        } else {
            result
        };
        if rgs == 4 {
            (r1 + (r1 & 1)) as u32
        } else {
            r1
        }
    }
}

/// Same final assembly for the double width.
pub open spec fn finish_add64(rsign: u64, e: int, sig: u64) -> u64 {
    if e >= 2047 {
        EXP_MASK64 | rsign
    } else {
        let e1: u64 = if e <= 0 {
            0u64
        } else {
            e as u64
        };
        let sig1: u64 = if e <= 0 {
            let shift = (1 - e) as u32;
            if shift < 64 {
                let st: u64 = if sig << ((64 - shift) as u32) != 0 {
                    1u64
                } else {
                    0u64
                };
                (sig >> shift) | st
            } else {
                if sig != 0 {
                    1u64
                } else {
                    0u64
                }
            }
        } else {
            sig
        };
        let result = (((sig1 >> 3u32) & SIG_MASK64) | (e1 << SIG_BITS64)) | rsign;
        let rgs = sig1 & 7;
        let r1 = if rgs > 4 {
            (result + 1) as u64
        } else {
            result
        };
        if rgs == 4 {
            (r1 + (r1 & 1)) as u64
        } else {
            r1
        }
    }
}

/// The sum of two finite, nonzero single-width patterns with
/// `|a| >= |b|`; the result carries the sign of `a`.
pub open spec fn add_finite32(a: u32, b: u32) -> u32 {
    let a_abs = a & ABS32;
    let b_abs = b & ABS32;
    let rsign = a & SIGN32;
    let subtraction = (a ^ b) & SIGN32 != 0;
    let a_exp = if a_abs < IMPLICIT32 {
        normalize32_spec(a_abs).0
    } else {
        (a_abs >> SIG_BITS32) as int
    };
    let a_sig0 = if a_abs < IMPLICIT32 {
        normalize32_spec(a_abs).1
    } else {
        a_abs & SIG_MASK32
    };
    let b_exp = if b_abs < IMPLICIT32 {
        normalize32_spec(b_abs).0
    } else {
        (b_abs >> SIG_BITS32) as int
    };
    let b_sig0 = if b_abs < IMPLICIT32 {
        normalize32_spec(b_abs).1
    } else {
        b_abs & SIG_MASK32
    };
    let a_sig = (a_sig0 | IMPLICIT32) << 3u32;
    let b_sig1 = (b_sig0 | IMPLICIT32) << 3u32;
    let align = a_exp - b_exp;
    let b_sig = if align > 0 {
        if align < 32 {
            let st: u32 = if b_sig1 << ((32 - align) as u32) != 0 {
                1u32
            } else {
                0u32
            };
            (b_sig1 >> (align as u32)) | st
        } else {
            1u32
        }
    } else {
        b_sig1
    };
    if subtraction {
        let diff = (a_sig - b_sig) as u32;
        if diff == 0 {
            0u32
        } else if diff < (IMPLICIT32 << 3u32) {
            let shift = (u32_leading_zeros(diff) - 5) as u32;
            finish_add32(rsign, a_exp - shift, diff << shift)
        } else {
            finish_add32(rsign, a_exp, diff)
        }
    } else {
        let sum = (a_sig + b_sig) as u32;
        if sum & (IMPLICIT32 << 4u32) != 0 {
            finish_add32(rsign, a_exp + 1, (sum >> 1u32) | (sum & 1))
        } else {
            finish_add32(rsign, a_exp, sum)
        }
    }
}

/// The correctly-rounded sum of two single-width patterns: NaNs propagate
/// quieted, opposite infinities give the canonical quiet NaN, an infinity
/// absorbs any finite operand, zeros keep the sign rule (`-0 + -0 == -0`,
/// exact cancellation gives `+0`), and the finite path takes the sign of the
/// larger-magnitude operand.
pub open spec fn add_bits32(a: u32, b: u32) -> u32 {
    let a_abs = a & ABS32;
    let b_abs = b & ABS32;
    if a_abs > EXP_MASK32 {
        a | QUIET32
    } else if b_abs > EXP_MASK32 {
        b | QUIET32
    } else if a_abs == EXP_MASK32 {
        if (a ^ b) == SIGN32 {
            QNAN32
        } else {
            a
        }
    } else if b_abs == EXP_MASK32 {
        b
    } else if a_abs == 0 {
        if b_abs == 0 {
            a & b
        } else {
            b
        }
    } else if b_abs == 0 {
        a
    } else if b_abs > a_abs {
        add_finite32(b, a)
    } else {
        add_finite32(a, b)
    }
}

/// The subtraction mirror: addition with the second operand negated.
pub open spec fn sub_bits32(a: u32, b: u32) -> u32 {
    add_bits32(a, negate32(b))
}

/// The double-width mirrors, shaped exactly as the single-width ones.
pub open spec fn add_finite64(a: u64, b: u64) -> u64 {
    let a_abs = a & ABS64;
    let b_abs = b & ABS64;
    let rsign = a & SIGN64;
    let subtraction = (a ^ b) & SIGN64 != 0;
    let a_exp = if a_abs < IMPLICIT64 {
        normalize64_spec(a_abs).0
    } else {
        (a_abs >> SIG_BITS64) as int
    };
    let a_sig0 = if a_abs < IMPLICIT64 {
        normalize64_spec(a_abs).1
    } else {
        a_abs & SIG_MASK64
    };
    let b_exp = if b_abs < IMPLICIT64 {
        normalize64_spec(b_abs).0
    } else {
        (b_abs >> SIG_BITS64) as int
    };
    let b_sig0 = if b_abs < IMPLICIT64 {
        normalize64_spec(b_abs).1
    } else {
        b_abs & SIG_MASK64
    };
    let a_sig = (a_sig0 | IMPLICIT64) << 3u32;
    let b_sig1 = (b_sig0 | IMPLICIT64) << 3u32;
    let align = a_exp - b_exp;
    let b_sig = if align > 0 {
        if align < 64 {
            let st: u64 = if b_sig1 << ((64 - align) as u32) != 0 {
                1u64
            } else {
                0u64
            };
            (b_sig1 >> (align as u32)) | st
        } else {
            1u64
        }
    } else {
        b_sig1
    };
    if subtraction {
        let diff = (a_sig - b_sig) as u64;
        if diff == 0 {
            0u64
        } else if diff < (IMPLICIT64 << 3u32) {
            let shift = (u64_leading_zeros(diff) - 8) as u32;
            finish_add64(rsign, a_exp - shift, diff << shift)
        } else {
            finish_add64(rsign, a_exp, diff)
        }
    } else {
        let sum = (a_sig + b_sig) as u64;
        if sum & (IMPLICIT64 << 4u32) != 0 {
            finish_add64(rsign, a_exp + 1, (sum >> 1u32) | (sum & 1))
        } else {
            finish_add64(rsign, a_exp, sum)
        }
    }
}

/// The correctly-rounded sum of two double-width patterns; the cases match
/// [`add_bits32`].
pub open spec fn add_bits64(a: u64, b: u64) -> u64 {
    let a_abs = a & ABS64;
    let b_abs = b & ABS64;
    if a_abs > EXP_MASK64 {
        a | QUIET64
    } else if b_abs > EXP_MASK64 {
        b | QUIET64
    } else if a_abs == EXP_MASK64 {
        if (a ^ b) == SIGN64 {
            QNAN64
        } else {
            a
        }
    } else if b_abs == EXP_MASK64 {
        b
    } else if a_abs == 0 {
        if b_abs == 0 {
            a & b
        } else {
            b
        }
    } else if b_abs == 0 {
        a
    } else if b_abs > a_abs {
        add_finite64(b, a)
    } else {
        add_finite64(a, b)
    }
}

/// The subtraction mirror for the double width.
pub open spec fn sub_bits64(a: u64, b: u64) -> u64 {
    add_bits64(a, negate64(b))
}

/// Finite path with `|a| >= |b| > 0`, both operands finite.
fn add_magnitude32(a: u32, b: u32) -> (r: u32)
    requires
        (b & ABS32) <= (a & ABS32),
        (a & ABS32) < EXP_MASK32,
        (b & ABS32) != 0,
    ensures
        r == add_finite32(a, b),
{
    let a_abs: u32 = a & ABS32;
    let b_abs: u32 = b & ABS32;
    let rsign: u32 = a & SIGN32;
    let subtraction: bool = (a ^ b) & SIGN32 != 0;
    proof {
        axiom_u32_leading_zeros(a_abs);
        axiom_u32_leading_zeros(b_abs);
        lemma_decompose32(a);
        lemma_decompose32(b);
        lemma_pair32(a, b);
    }
    let mut a_exp: i32 = 0;
    let mut a_sig0: u32 = 0;
    if a_abs < IMPLICIT32 {
        let n: (i32, u32) = normalize32(a_abs);
        a_exp = n.0;
        a_sig0 = n.1;
    } else {
        a_exp = (a_abs >> SIG_BITS32) as i32;
        a_sig0 = a_abs & SIG_MASK32;
    }
    let mut b_exp: i32 = 0;
    let mut b_sig0: u32 = 0;
    if b_abs < IMPLICIT32 {
        let n: (i32, u32) = normalize32(b_abs);
        b_exp = n.0;
        b_sig0 = n.1;
    } else {
        b_exp = (b_abs >> SIG_BITS32) as i32;
        b_sig0 = b_abs & SIG_MASK32;
    }
    proof {
        // The larger magnitude has the larger effective exponent, and on
        // equal exponents the larger aligned significand.
        let za: u32 = u32_leading_zeros(a_abs);
        let zb: u32 = u32_leading_zeros(b_abs);
        assert((a_abs >= b_abs ==> ((a_abs >> 23u32) >= (b_abs >> 23u32) && ((a_abs >> 23u32) == (
        b_abs >> 23u32) ==> (a_abs & 0x007F_FFFFu32) >= (b_abs & 0x007F_FFFFu32)))) && ((za < 32
            && zb < 32 && a_abs >> ((32 - za) as u32) == 0 && (b_abs >> ((31 - zb) as u32)) & 1
            != 0 && a_abs >= b_abs) ==> za <= zb) && ((za == zb && 9 <= za < 32 && a_abs >> ((32
            - za) as u32) == 0 && a_abs >= b_abs) ==> (a_abs << ((za - 8) as u32)) >= (b_abs << ((
        za - 8) as u32)))) by (bit_vector);
        assert(((a_sig0 < 0x0100_0000u32 && b_sig0 < 0x0100_0000u32 && a_sig0 >= b_sig0 && (a_sig0
            >= 0x0080_0000u32 <==> b_sig0 >= 0x0080_0000u32)) ==> ((a_sig0 | 0x0080_0000u32)
            << 3u32) >= ((b_sig0 | 0x0080_0000u32) << 3u32)) && (a_sig0 < 0x0100_0000u32 ==> ((
        a_sig0 | 0x0080_0000u32) << 3u32 >= 0x0400_0000 && (a_sig0 | 0x0080_0000u32) << 3u32
            < 0x0800_0000)) && (b_sig0 < 0x0100_0000u32 ==> ((b_sig0 | 0x0080_0000u32) << 3u32
            >= 0x0400_0000 && (b_sig0 | 0x0080_0000u32) << 3u32 < 0x0800_0000)) && (0x0080_0000u32
            << 3u32) == 0x0400_0000u32 && (0x0080_0000u32 << 4u32) == 0x0800_0000u32)
            by (bit_vector);
    }
    let a_sig: u32 = (a_sig0 | IMPLICIT32) << 3u32;
    let b_sig1: u32 = (b_sig0 | IMPLICIT32) << 3u32;
    let align: i32 = a_exp - b_exp;
    let b_sig: u32 = if align > 0 {
        if align < 32 {
            let st: u32 = if b_sig1 << ((32 - align) as u32) != 0 {
                1u32
            } else {
                0u32
            };
            proof {
                let c: u32 = align as u32;
                assert(((b_sig1 >> c) | 1) < 0x0400_0000 && ((b_sig1 >> c) | 0) < 0x0400_0000)
                    by (bit_vector)
                    requires
                        b_sig1 < 0x0800_0000u32,
                        1 <= c < 32,
                ;
            }
            (b_sig1 >> (align as u32)) | st
        } else {
            1u32
        }
    } else {
        b_sig1
    };
    let r_exp: i32;
    let r_sig: u32;
    if subtraction {
        let diff: u32 = a_sig - b_sig;
        if diff == 0 {
            return 0u32;
        }
        proof {
            axiom_u32_leading_zeros(diff);
        }
        if diff < (IMPLICIT32 << 3u32) {
            let z: u32 = diff.leading_zeros();
            proof {
                assert(5 <= z < 32) by (bit_vector)
                    requires
                        diff != 0,
                        diff < 0x0400_0000u32,
                        z <= 32,
                        (z < 32 ==> (diff >> ((31 - z) as u32)) & 1 != 0),
                        diff >> ((32 - z) as u32) == 0,
                ;
            }
            let shift: u32 = z - 5;
            r_exp = a_exp - (shift as i32);
            r_sig = diff << shift;
        } else {
            r_exp = a_exp;
            r_sig = diff;
        }
    } else {
        let sum: u32 = a_sig + b_sig;
        if sum & (IMPLICIT32 << 4u32) != 0 {
            r_exp = a_exp + 1;
            r_sig = (sum >> 1u32) | (sum & 1);
        } else {
            r_exp = a_exp;
            r_sig = sum;
        }
    }
    if r_exp >= 255 {
        return EXP_MASK32 | rsign;
    }
    let mut sig1: u32 = r_sig;
    let mut e1: u32 = 0;
    if r_exp <= 0 {
        let shift: u32 = (1 - r_exp) as u32;
        if shift < 32 {
            let st: u32 = if sig1 << (32 - shift) != 0 {
                1u32
            } else {
                0u32
            };
            sig1 = (sig1 >> shift) | st;
        } else {
            sig1 = if sig1 != 0 {
                1u32
            } else {
                0u32
            };
        }
    } else {
        e1 = r_exp as u32;
    }
    proof {
        lemma_assemble32(sig1 >> 3u32, e1, rsign);
    }
    let mut result: u32 = (((sig1 >> 3u32) & SIG_MASK32) | (e1 << SIG_BITS32)) | rsign;
    let rgs: u32 = sig1 & 7;
    if rgs > 4 {
        result = result + 1;
    }
    if rgs == 4 {
        proof {
            lemma_low_bit32(result);
        }
        result = result + (result & 1);
    }
    result
}

/// Single-width addition: returns the sum bit pattern described by
/// [`add_bits32`].
pub fn __addsf3(a: u32, b: u32) -> (r: u32)
    ensures
        r == add_bits32(a, b),
{
    let a_abs: u32 = a & ABS32;
    let b_abs: u32 = b & ABS32;
    if a_abs > EXP_MASK32 {
        return a | QUIET32;
    }
    if b_abs > EXP_MASK32 {
        return b | QUIET32;
    }
    if a_abs == EXP_MASK32 {
        return if (a ^ b) == SIGN32 {
            QNAN32
        } else {
            a
        };
    }
    if b_abs == EXP_MASK32 {
        return b;
    }
    if a_abs == 0 {
        return if b_abs == 0 {
            a & b
        } else {
            b
        };
    }
    if b_abs == 0 {
        return a;
    }
    if b_abs > a_abs {
        add_magnitude32(b, a)
    } else {
        add_magnitude32(a, b)
    }
}

/// Single-width subtraction: addition with the second operand's sign
/// inverted, per [`sub_bits32`].
pub fn __subsf3(a: u32, b: u32) -> (r: u32)
    ensures
        r == sub_bits32(a, b),
{
    __addsf3(a, b ^ SIGN32)
}

/// Finite path with `|a| >= |b| > 0` for the double width.
fn add_magnitude64(a: u64, b: u64) -> (r: u64)
    requires
        (b & ABS64) <= (a & ABS64),
        (a & ABS64) < EXP_MASK64,
        (b & ABS64) != 0,
    ensures
        r == add_finite64(a, b),
{
    let a_abs: u64 = a & ABS64;
    let b_abs: u64 = b & ABS64;
    let rsign: u64 = a & SIGN64;
    let subtraction: bool = (a ^ b) & SIGN64 != 0;
    proof {
        axiom_u64_leading_zeros(a_abs);
        axiom_u64_leading_zeros(b_abs);
        lemma_decompose64(a);
        lemma_decompose64(b);
        lemma_pair64(a, b);
    }
    let mut a_exp: i32 = 0;
    let mut a_sig0: u64 = 0;
    if a_abs < IMPLICIT64 {
        let n: (i32, u64) = normalize64(a_abs);
        a_exp = n.0;
        a_sig0 = n.1;
    } else {
        a_exp = (a_abs >> SIG_BITS64) as i32;
        a_sig0 = a_abs & SIG_MASK64;
    }
    let mut b_exp: i32 = 0;
    let mut b_sig0: u64 = 0;
    if b_abs < IMPLICIT64 {
        let n: (i32, u64) = normalize64(b_abs);
        b_exp = n.0;
        b_sig0 = n.1;
    } else {
        b_exp = (b_abs >> SIG_BITS64) as i32;
        b_sig0 = b_abs & SIG_MASK64;
    }
    proof {
        let za: u32 = u64_leading_zeros(a_abs) as u32;
        let zb: u32 = u64_leading_zeros(b_abs) as u32;
        assert((a_abs >= b_abs ==> ((a_abs >> 52u32) >= (b_abs >> 52u32) && ((a_abs >> 52u32) == (
        b_abs >> 52u32) ==> (a_abs & 0x000F_FFFF_FFFF_FFFFu64) >= (b_abs
            & 0x000F_FFFF_FFFF_FFFFu64)))) && ((za < 64 && zb < 64 && a_abs >> ((64 - za) as u32)
            == 0 && (b_abs >> ((63 - zb) as u32)) & 1 != 0 && a_abs >= b_abs) ==> za <= zb) && ((
        za == zb && 12 <= za < 64 && a_abs >> ((64 - za) as u32) == 0 && a_abs >= b_abs) ==> (
        a_abs << ((za - 11) as u32)) >= (b_abs << ((za - 11) as u32)))) by (bit_vector);
        assert(((a_sig0 < 0x0020_0000_0000_0000u64 && b_sig0 < 0x0020_0000_0000_0000u64 && a_sig0
            >= b_sig0 && (a_sig0 >= 0x0010_0000_0000_0000u64 <==> b_sig0
            >= 0x0010_0000_0000_0000u64)) ==> ((a_sig0 | 0x0010_0000_0000_0000u64) << 3u32) >= ((
        b_sig0 | 0x0010_0000_0000_0000u64) << 3u32)) && (a_sig0 < 0x0020_0000_0000_0000u64 ==> ((
        a_sig0 | 0x0010_0000_0000_0000u64) << 3u32 >= 0x0080_0000_0000_0000 && (a_sig0
            | 0x0010_0000_0000_0000u64) << 3u32 < 0x0100_0000_0000_0000)) && (b_sig0
            < 0x0020_0000_0000_0000u64 ==> ((b_sig0 | 0x0010_0000_0000_0000u64) << 3u32
            >= 0x0080_0000_0000_0000 && (b_sig0 | 0x0010_0000_0000_0000u64) << 3u32
            < 0x0100_0000_0000_0000)) && (0x0010_0000_0000_0000u64 << 3u32)
            == 0x0080_0000_0000_0000u64 && (0x0010_0000_0000_0000u64 << 4u32)
            == 0x0100_0000_0000_0000u64) by (bit_vector);
    }
    let a_sig: u64 = (a_sig0 | IMPLICIT64) << 3u32;
    let b_sig1: u64 = (b_sig0 | IMPLICIT64) << 3u32;
    let align: i32 = a_exp - b_exp;
    let b_sig: u64 = if align > 0 {
        if align < 64 {
            let st: u64 = if b_sig1 << ((64 - align) as u32) != 0 {
                1u64
            } else {
                0u64
            };
            proof {
                let c: u32 = align as u32;
                assert(((b_sig1 >> c) | 1) < 0x0080_0000_0000_0000 && ((b_sig1 >> c) | 0)
                    < 0x0080_0000_0000_0000) by (bit_vector)
                    requires
                        b_sig1 < 0x0100_0000_0000_0000u64,
                        1 <= c < 64,
                ;
            }
            (b_sig1 >> (align as u32)) | st
        } else {
            1u64
        }
    } else {
        b_sig1
    };
    let r_exp: i32;
    let r_sig: u64;
    if subtraction {
        let diff: u64 = a_sig - b_sig;
        if diff == 0 {
            return 0u64;
        }
        proof {
            axiom_u64_leading_zeros(diff);
        }
        if diff < (IMPLICIT64 << 3u32) {
            let z: u32 = diff.leading_zeros();
            proof {
                assert(8 <= z < 64) by (bit_vector)
                    requires
                        diff != 0,
                        diff < 0x0080_0000_0000_0000u64,
                        z <= 64,
                        (z < 64 ==> (diff >> ((63 - z) as u32)) & 1 != 0),
                        diff >> ((64 - z) as u32) == 0,
                ;
            }
            let shift: u32 = z - 8;
            r_exp = a_exp - (shift as i32);
            r_sig = diff << shift;
        } else {
            r_exp = a_exp;
            r_sig = diff;
        }
    } else {
        let sum: u64 = a_sig + b_sig;
        if sum & (IMPLICIT64 << 4u32) != 0 {
            r_exp = a_exp + 1;
            r_sig = (sum >> 1u32) | (sum & 1);
        } else {
            r_exp = a_exp;
            r_sig = sum;
        }
    }
    if r_exp >= 2047 {
        return EXP_MASK64 | rsign;
    }
    let mut sig1: u64 = r_sig;
    let mut e1: u64 = 0;
    if r_exp <= 0 {
        let shift: u32 = (1 - r_exp) as u32;
        if shift < 64 {
            let st: u64 = if sig1 << (64 - shift) != 0 {
                1u64
            } else {
                0u64
            };
            sig1 = (sig1 >> shift) | st;
        } else {
            sig1 = if sig1 != 0 {
                1u64
            } else {
                0u64
            };
        }
    } else {
        e1 = r_exp as u64;
    }
    proof {
        lemma_assemble64(sig1 >> 3u32, e1, rsign);
    }
    let mut result: u64 = (((sig1 >> 3u32) & SIG_MASK64) | (e1 << SIG_BITS64)) | rsign;
    let rgs: u64 = sig1 & 7;
    if rgs > 4 {
        result = result + 1;
    }
    if rgs == 4 {
        proof {
            lemma_low_bit64(result);
        }
        result = result + (result & 1);
    }
    result
}

/// Double-width addition: returns the sum bit pattern described by
/// [`add_bits64`].
pub fn __adddf3(a: u64, b: u64) -> (r: u64)
    ensures
        r == add_bits64(a, b),
{
    let a_abs: u64 = a & ABS64;
    let b_abs: u64 = b & ABS64;
    if a_abs > EXP_MASK64 {
        return a | QUIET64;
    }
    if b_abs > EXP_MASK64 {
        return b | QUIET64;
    }
    if a_abs == EXP_MASK64 {
        return if (a ^ b) == SIGN64 {
            QNAN64
        } else {
            a
        };
    }
    if b_abs == EXP_MASK64 {
        return b;
    }
    if a_abs == 0 {
        return if b_abs == 0 {
            a & b
        } else {
            b
        };
    }
    if b_abs == 0 {
        return a;
    }
    if b_abs > a_abs {
        add_magnitude64(b, a)
    } else {
        add_magnitude64(a, b)
    }
}

/// Double-width subtraction, per [`sub_bits64`].
pub fn __subdf3(a: u64, b: u64) -> (r: u64)
    ensures
        r == sub_bits64(a, b),
{
    __adddf3(a, b ^ SIGN64)
}

} // verus!
