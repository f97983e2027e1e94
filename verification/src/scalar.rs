//! The scalar boundary: double-precision arithmetic on bit patterns.
//!
//! A scalar is the bit pattern of an IEEE 754 double, held as a `u64`. The
//! library never computes with doubles itself: the [`FloatOps`] trait asks
//! its implementor — the embedding program — for the five primitive
//! operations, just as the vector abstraction asks its callers to choose the
//! dimension. Each operation's result is named by a spec function of the
//! trait: IEEE 754 fixes each of these operations, so the result is a
//! function of the operand bit patterns alone. Nothing is assumed about the
//! values beyond that determinism; in particular a division by a zero length
//! propagates the infinities and NaNs that the arithmetic produces.

use vstd::prelude::*;

verus! {

/// Double-precision arithmetic on bit patterns, supplied by the embedding
/// program.
///
/// An implementation must make each executable method return the bit pattern
/// of the correspondingly named IEEE 754 double-precision operation (round to
/// nearest, ties to even) applied to its operands, read as doubles. The
/// contracts of the library's vector operations are stated over the spec
/// functions of this trait, so they hold for whatever arithmetic an
/// implementation supplies; faithfulness of that arithmetic to IEEE 754 is
/// the implementor's obligation, not checked here.
pub trait FloatOps {
    /// The bit pattern that the implementation's addition returns.
    spec fn add_bits(a: u64, b: u64) -> u64;

    /// The bit pattern that the implementation's subtraction returns.
    spec fn sub_bits(a: u64, b: u64) -> u64;

    /// The bit pattern that the implementation's multiplication returns.
    spec fn mul_bits(a: u64, b: u64) -> u64;

    /// The bit pattern that the implementation's division returns.
    spec fn div_bits(a: u64, b: u64) -> u64;

    /// The bit pattern that the implementation's square root returns.
    spec fn sqrt_bits(a: u64) -> u64;

    /// Double-precision addition of the doubles with bit patterns `a` and `b`.
    fn add(a: u64, b: u64) -> (r: u64)
        ensures
            r == Self::add_bits(a, b);

    /// Double-precision subtraction of the doubles with bit patterns `a` and `b`.
    fn sub(a: u64, b: u64) -> (r: u64)
        ensures
            r == Self::sub_bits(a, b);

    /// Double-precision multiplication of the doubles with bit patterns `a` and `b`.
    fn mul(a: u64, b: u64) -> (r: u64)
        ensures
            r == Self::mul_bits(a, b);

    /// Double-precision division of the double with bit pattern `a` by the
    /// double with bit pattern `b`.
    fn div(a: u64, b: u64) -> (r: u64)
        ensures
            r == Self::div_bits(a, b);

    /// Double-precision square root of the double with bit pattern `a`.
    fn sqrt(a: u64) -> (r: u64)
        ensures
            r == Self::sqrt_bits(a);
}

} // verus!
