//! Floating-point numbers as their IEEE 754 bit patterns.
//!
//! The library stores, moves and compares such numbers; it never computes with
//! them. Leaving the sign bit aside, the order of the patterns is the order of
//! the magnitudes, with infinity above every finite number and every NaN above
//! infinity.

use vstd::prelude::*;

verus! {

/// A double-precision number (`f64::to_bits`).
#[derive(Debug, Clone, Copy, Default, PartialEq, Eq, Structural)]
pub struct Float64 {
    pub bits: u64,
}

/// A single-precision number (`f32::to_bits`).
#[derive(Debug, Clone, Copy, Default, PartialEq, Eq, Structural)]
pub struct Float32 {
    pub bits: u32,
}

/// The sign bit alone.
pub const SIGN_BIT: u64 = 0x8000_0000_0000_0000;

/// The pattern of infinity.
pub const INFINITY_BITS: u64 = 0x7ff0_0000_0000_0000;

/// The pattern of the magnitude of a number.
pub open spec fn magnitude(value: Float64) -> int {
    value.bits as int % SIGN_BIT as int
}

/// The pattern is one of a number.
pub open spec fn is_number(value: Float64) -> bool {
    magnitude(value) <= INFINITY_BITS
}

/// The number is negative, or minus zero.
pub open spec fn has_minus_sign(value: Float64) -> bool {
    value.bits >= SIGN_BIT
}

/// The magnitude of the number is greater than that of a limit, which is given
/// by the pattern of its magnitude.
pub open spec fn is_beyond(value: Float64, limit: u64) -> bool {
    is_number(value) && magnitude(value) > limit
}

/// The number is at most a limit that is not negative, given by its pattern.
pub open spec fn is_at_most(value: Float64, limit: u64) -> bool {
    is_number(value) && (has_minus_sign(value) || magnitude(value) <= limit)
}

/// Whether the magnitude of the number is greater than that of the limit.
pub fn beyond(value: Float64, limit: u64) -> (answer: bool)
    ensures
        answer == is_beyond(value, limit),
{
    let m: u64 = value.bits % SIGN_BIT;
    m <= INFINITY_BITS && m > limit
}

/// Whether the number is at most the limit.
pub fn at_most(value: Float64, limit: u64) -> (answer: bool)
    ensures
        answer == is_at_most(value, limit),
{
    let m: u64 = value.bits % SIGN_BIT;
    m <= INFINITY_BITS && (value.bits >= SIGN_BIT || m <= limit)
}

} // verus!
