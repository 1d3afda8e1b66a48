//! The format descriptor trait: one interface over both floating widths.
//!
//! A floating value is carried as its bit pattern in the same-width unsigned
//! integer, so the bit-cast between value and representation is the identity
//! and stays confined to this descriptor. Each method's contract is stated
//! through an associated specification function, which every width defines
//! over its own constants and bit-level specifications, so the per-width
//! values and the exact behaviour of every operation are visible through the
//! trait.

use vstd::prelude::*;

verus! {

use crate::bits32;
use crate::bits64;

/// Basic operations on floating bit patterns, per width.
pub trait Float: Sized + Copy {
    /// An unsigned integer of the same width as the float.
    type Int;

    /// The total bit width, as a specification value.
    spec fn spec_bits() -> u32;

    /// The stored significand width, as a specification value.
    spec fn spec_significand_bits() -> u32;

    /// The exponent width, as a specification value.
    spec fn spec_exponent_bits() -> u32;

    /// The maximum exponent field value, as a specification value.
    spec fn spec_exponent_max() -> u32;

    /// The exponent bias, as a specification value.
    spec fn spec_exponent_bias() -> u32;

    /// The sign-bit mask, as a specification value.
    spec fn spec_sign_mask() -> Self::Int;

    /// The significand-field mask, as a specification value.
    spec fn spec_significand_mask() -> Self::Int;

    /// The implicit bit, as a specification value.
    spec fn spec_implicit_bit() -> Self::Int;

    /// The exponent-field mask, as a specification value.
    spec fn spec_exponent_mask() -> Self::Int;

    /// What [`Float::repr`] returns: the value's own bit pattern.
    spec fn spec_repr(self) -> Self::Int;

    /// What [`Float::from_repr`] returns: the value a pattern carries.
    spec fn spec_from_repr(a: Self::Int) -> Self;

    /// What [`Float::eq_repr`] returns: bitwise equality, with any two NaNs
    /// counting as equal.
    spec fn spec_eq_repr(self, rhs: Self) -> bool;

    /// What [`Float::from_parts`] returns: the fields assembled into a
    /// pattern, out-of-field bits masked away.
    spec fn spec_from_parts(sign: bool, exponent: Self::Int, significand: Self::Int) -> Self;

    /// What [`Float::normalize`] returns: the exponent adjustment and the
    /// renormalized significand.
    spec fn spec_normalize(significand: Self::Int) -> (int, Self::Int);

    /// What [`Float::wide_multiply`] returns: the exact double-width product
    /// split into halves.
    spec fn spec_wide_multiply(a: Self::Int, b: Self::Int) -> (Self::Int, Self::Int);

    /// What [`Float::wide_left_shift`] returns.
    spec fn spec_wide_left_shift(hi: Self::Int, lo: Self::Int, count: i32) -> (
        Self::Int,
        Self::Int,
    );

    /// What [`Float::wide_right_shift_with_sticky`] returns.
    spec fn spec_wide_right_shift_with_sticky(hi: Self::Int, lo: Self::Int, count: u32) -> (
        Self::Int,
        Self::Int,
    );

    /// What [`Float::compute_reciprocal`] returns: the fixed-point
    /// Newton–Raphson reciprocal approximation.
    spec fn spec_compute_reciprocal(b: Self::Int) -> Self::Int;

    /// Returns the bit width of the float type.
    fn bits() -> (r: u32)
        ensures
            r == Self::spec_bits(),
    ;

    /// Returns the bit width of the stored significand.
    fn significand_bits() -> (r: u32)
        ensures
            r == Self::spec_significand_bits(),
    ;

    /// Returns the bit width of the exponent.
    fn exponent_bits() -> (r: u32)
        ensures
            r == Self::spec_exponent_bits(),
    ;

    /// Returns the maximum value of the exponent field.
    fn exponent_max() -> (r: u32)
        ensures
            r == Self::spec_exponent_max(),
    ;

    /// Returns the exponent bias.
    fn exponent_bias() -> (r: u32)
        ensures
            r == Self::spec_exponent_bias(),
    ;

    /// Returns a mask for the sign bit.
    fn sign_mask() -> (r: Self::Int)
        ensures
            r == Self::spec_sign_mask(),
    ;

    /// Returns a mask for the significand field.
    fn significand_mask() -> (r: Self::Int)
        ensures
            r == Self::spec_significand_mask(),
    ;

    /// Returns the implicit bit of the float format.
    fn implicit_bit() -> (r: Self::Int)
        ensures
            r == Self::spec_implicit_bit(),
    ;

    /// Returns a mask for the exponent field.
    fn exponent_mask() -> (r: Self::Int)
        ensures
            r == Self::spec_exponent_mask(),
    ;

    /// Returns the value's bit pattern.
    fn repr(self) -> (r: Self::Int)
        ensures
            r == self.spec_repr(),
    ;

    /// Checks whether two patterns agree, counting any two NaNs as equal.
    fn eq_repr(self, rhs: Self) -> (b: bool)
        ensures
            b == self.spec_eq_repr(rhs),
    ;

    /// Returns the value carried by a bit pattern.
    fn from_repr(a: Self::Int) -> (r: Self)
        ensures
            r == Self::spec_from_repr(a),
    ;

    /// Constructs a value from its parts; inputs are treated as bits and
    /// shifted into position.
    fn from_parts(sign: bool, exponent: Self::Int, significand: Self::Int) -> (r: Self)
        ensures
            r == Self::spec_from_parts(sign, exponent, significand),
    ;

    /// Returns the exponent adjustment and the renormalized significand.
    fn normalize(significand: Self::Int) -> (r: (i32, Self::Int))
        ensures
            r.0 == Self::spec_normalize(significand).0,
            r.1 == Self::spec_normalize(significand).1,
    ;

    /// Returns the double-width product `a * b` as `(high, low)`.
    fn wide_multiply(a: Self::Int, b: Self::Int) -> (r: (Self::Int, Self::Int))
        ensures
            r == Self::spec_wide_multiply(a, b),
    ;

    /// Returns `(hi, lo) << count`.
    fn wide_left_shift(hi: Self::Int, lo: Self::Int, count: i32) -> (r: (Self::Int, Self::Int))
        requires
            0 < count < Self::spec_bits() as i32,
        ensures
            r == Self::spec_wide_left_shift(hi, lo, count),
    ;

    /// Returns `(hi, lo) >> count`, with every bit shifted out collapsed
    /// into the sticky position.
    fn wide_right_shift_with_sticky(hi: Self::Int, lo: Self::Int, count: u32) -> (r: (
        Self::Int,
        Self::Int,
    ))
        requires
            0 < count,
        ensures
            r == Self::spec_wide_right_shift_with_sticky(hi, lo, count),
    ;

    /// Returns the fixed-point reciprocal approximation of a normalized
    /// significand.
    fn compute_reciprocal(b: Self::Int) -> (r: Self::Int)
        ensures
            r == Self::spec_compute_reciprocal(b),
    ;
}

impl Float for u32 {
    type Int = u32;

    open spec fn spec_bits() -> u32 {
        bits32::BITS32
    }

    open spec fn spec_significand_bits() -> u32 {
        bits32::SIG_BITS32
    }

    open spec fn spec_exponent_bits() -> u32 {
        bits32::EXP_BITS32
    }

    open spec fn spec_exponent_max() -> u32 {
        bits32::EXP_MAX32
    }

    open spec fn spec_exponent_bias() -> u32 {
        bits32::BIAS32
    }

    open spec fn spec_sign_mask() -> u32 {
        bits32::SIGN32
    }

    open spec fn spec_significand_mask() -> u32 {
        bits32::SIG_MASK32
    }

    open spec fn spec_implicit_bit() -> u32 {
        bits32::IMPLICIT32
    }

    open spec fn spec_exponent_mask() -> u32 {
        bits32::EXP_MASK32
    }

    open spec fn spec_repr(self) -> u32 {
        self
    }

    open spec fn spec_from_repr(a: u32) -> u32 {
        a
    }

    open spec fn spec_eq_repr(self, rhs: Self) -> bool {
        if bits32::is_nan32(self) && bits32::is_nan32(rhs) {
            true
        } else {
            self == rhs
        }
    }

    open spec fn spec_from_parts(sign: bool, exponent: u32, significand: u32) -> u32 {
        bits32::pack32(sign, exponent, significand)
    }

    open spec fn spec_normalize(significand: u32) -> (int, u32) {
        bits32::normalize32_spec(significand)
    }

    open spec fn spec_wide_multiply(a: u32, b: u32) -> (u32, u32) {
        bits32::wide_mul32_spec(a, b)
    }

    open spec fn spec_wide_left_shift(hi: u32, lo: u32, count: i32) -> (u32, u32) {
        bits32::wide_shl32_spec(hi, lo, count as u32)
    }

    open spec fn spec_wide_right_shift_with_sticky(hi: u32, lo: u32, count: u32) -> (u32, u32) {
        bits32::wide_shr_sticky32_spec(hi, lo, count)
    }

    open spec fn spec_compute_reciprocal(b: u32) -> u32 {
        bits32::recip32_spec(b)
    }

    fn bits() -> (r: u32) {
        bits32::BITS32
    }

    fn significand_bits() -> (r: u32) {
        bits32::SIG_BITS32
    }

    fn exponent_bits() -> (r: u32) {
        bits32::EXP_BITS32
    }

    fn exponent_max() -> (r: u32) {
        bits32::EXP_MAX32
    }

    fn exponent_bias() -> (r: u32) {
        bits32::BIAS32
    }

    fn sign_mask() -> (r: Self::Int) {
        bits32::SIGN32
    }

    fn significand_mask() -> (r: Self::Int) {
        bits32::SIG_MASK32
    }

    fn implicit_bit() -> (r: Self::Int) {
        bits32::IMPLICIT32
    }

    fn exponent_mask() -> (r: Self::Int) {
        bits32::EXP_MASK32
    }

    fn repr(self) -> (r: Self::Int) {
        self
    }

    fn eq_repr(self, rhs: Self) -> (b: bool) {
        bits32::eq_repr32(self, rhs)
    }

    fn from_repr(a: Self::Int) -> (r: Self) {
        a
    }

    fn from_parts(sign: bool, exponent: Self::Int, significand: Self::Int) -> (r: Self) {
        bits32::from_parts32(sign, exponent, significand)
    }

    fn normalize(significand: Self::Int) -> (r: (i32, Self::Int)) {
        bits32::normalize32(significand)
    }

    fn wide_multiply(a: Self::Int, b: Self::Int) -> (r: (Self::Int, Self::Int)) {
        bits32::wide_mul32(a, b)
    }

    fn wide_left_shift(hi: Self::Int, lo: Self::Int, count: i32) -> (r: (Self::Int, Self::Int)) {
        bits32::wide_shl32(hi, lo, count as u32)
    }

    fn wide_right_shift_with_sticky(hi: Self::Int, lo: Self::Int, count: u32) -> (r: (
        Self::Int,
        Self::Int,
    )) {
        bits32::wide_shr_sticky32(hi, lo, count)
    }

    fn compute_reciprocal(b: Self::Int) -> (r: Self::Int) {
        bits32::compute_reciprocal32(b)
    }
}

impl Float for u64 {
    type Int = u64;

    open spec fn spec_bits() -> u32 {
        bits64::BITS64
    }

    open spec fn spec_significand_bits() -> u32 {
        bits64::SIG_BITS64
    }

    open spec fn spec_exponent_bits() -> u32 {
        bits64::EXP_BITS64
    }

    open spec fn spec_exponent_max() -> u32 {
        2047u32
    }

    open spec fn spec_exponent_bias() -> u32 {
        1023u32
    }

    open spec fn spec_sign_mask() -> u64 {
        bits64::SIGN64
    }

    open spec fn spec_significand_mask() -> u64 {
        bits64::SIG_MASK64
    }

    open spec fn spec_implicit_bit() -> u64 {
        bits64::IMPLICIT64
    }

    open spec fn spec_exponent_mask() -> u64 {
        bits64::EXP_MASK64
    }

    open spec fn spec_repr(self) -> u64 {
        self
    }

    open spec fn spec_from_repr(a: u64) -> u64 {
        a
    }

    open spec fn spec_eq_repr(self, rhs: Self) -> bool {
        if bits64::is_nan64(self) && bits64::is_nan64(rhs) {
            true
        } else {
            self == rhs
        }
    }

    open spec fn spec_from_parts(sign: bool, exponent: u64, significand: u64) -> u64 {
        bits64::pack64(sign, exponent, significand)
    }

    open spec fn spec_normalize(significand: u64) -> (int, u64) {
        bits64::normalize64_spec(significand)
    }

    open spec fn spec_wide_multiply(a: u64, b: u64) -> (u64, u64) {
        bits64::wide_mul64_spec(a, b)
    }

    open spec fn spec_wide_left_shift(hi: u64, lo: u64, count: i32) -> (u64, u64) {
        bits64::wide_shl64_spec(hi, lo, count as u32)
    }

    open spec fn spec_wide_right_shift_with_sticky(hi: u64, lo: u64, count: u32) -> (u64, u64) {
        bits64::wide_shr_sticky64_spec(hi, lo, count)
    }

    open spec fn spec_compute_reciprocal(b: u64) -> u64 {
        bits64::recip64_spec(b)
    }

    fn bits() -> (r: u32) {
        bits64::BITS64
    }

    fn significand_bits() -> (r: u32) {
        bits64::SIG_BITS64
    }

    fn exponent_bits() -> (r: u32) {
        bits64::EXP_BITS64
    }

    fn exponent_max() -> (r: u32) {
        2047u32
    }

    fn exponent_bias() -> (r: u32) {
        1023u32
    }

    fn sign_mask() -> (r: Self::Int) {
        bits64::SIGN64
    }

    fn significand_mask() -> (r: Self::Int) {
        bits64::SIG_MASK64
    }

    fn implicit_bit() -> (r: Self::Int) {
        bits64::IMPLICIT64
    }

    fn exponent_mask() -> (r: Self::Int) {
        bits64::EXP_MASK64
    }

    fn repr(self) -> (r: Self::Int) {
        self
    }

    fn eq_repr(self, rhs: Self) -> (b: bool) {
        bits64::eq_repr64(self, rhs)
    }

    fn from_repr(a: Self::Int) -> (r: Self) {
        a
    }

    fn from_parts(sign: bool, exponent: Self::Int, significand: Self::Int) -> (r: Self) {
        bits64::from_parts64(sign, exponent, significand)
    }

    fn normalize(significand: Self::Int) -> (r: (i32, Self::Int)) {
        bits64::normalize64(significand)
    }

    fn wide_multiply(a: Self::Int, b: Self::Int) -> (r: (Self::Int, Self::Int)) {
        bits64::wide_mul64(a, b)
    }

    fn wide_left_shift(hi: Self::Int, lo: Self::Int, count: i32) -> (r: (Self::Int, Self::Int)) {
        bits64::wide_shl64(hi, lo, count as u32)
    }

    fn wide_right_shift_with_sticky(hi: Self::Int, lo: Self::Int, count: u32) -> (r: (
        Self::Int,
        Self::Int,
    )) {
        bits64::wide_shr_sticky64(hi, lo, count)
    }

    fn compute_reciprocal(b: Self::Int) -> (r: Self::Int) {
        bits64::compute_reciprocal64(b)
    }
}

} // verus!
