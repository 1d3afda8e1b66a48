//! Software floating-point runtime: IEEE 754 arithmetic on raw bit patterns.
//!
//! Every operation in this crate is a pure function from operand bit patterns
//! (carried in same-width unsigned integers) to a result bit pattern, built
//! entirely from integer shifts, masks and multi-word arithmetic, with
//! round-to-nearest-even rounding and full handling of subnormals, signed
//! zeros, infinities and NaN propagation.

pub mod bits32;
pub mod bits64;
pub mod multiplication;
pub mod addition;
pub mod division;
pub mod conversion;
pub mod descriptor;
pub mod laws;
