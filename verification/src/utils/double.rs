//! IEEE-754 double-precision values, handled by their bit pattern.
//!
//! The control loop that corrects the throttle works in double precision.
//! Its gains and its output pass through this crate as bit patterns: the sign
//! in bit 63, the biased exponent in bits 52 to 62, the fraction below.

use vstd::prelude::*;

verus! {

/// The weight of the sign bit.
pub const SIGN: u64 = 0x8000_0000_0000_0000;

/// The pattern of positive infinity.
pub const INFINITY: u64 = 0x7FF0_0000_0000_0000;

/// The pattern of positive zero.
pub const ZERO: u64 = 0;

/// The pattern of one.
pub const ONE: u64 = 0x3FF0_0000_0000_0000;

/// The pattern of one half.
pub const HALF: u64 = 0x3FE0_0000_0000_0000;

/// The pattern of the double nearest to one tenth.
pub const TENTH: u64 = 0x3FB9_9999_9999_999A;

/// The pattern without its sign bit.
pub open spec fn magnitude(bits: u64) -> u64 {
    (bits % 0x8000_0000_0000_0000) as u64
}

/// Whether the pattern is not a number.
pub open spec fn spec_is_nan(bits: u64) -> bool {
    magnitude(bits) > 0x7FF0_0000_0000_0000
}

/// Whether the value is at most zero, as IEEE-754 compares: true of both
/// zeros, of every negative number and of negative infinity, false of what is
/// not a number.
pub open spec fn spec_non_positive(bits: u64) -> bool {
    !spec_is_nan(bits) && (bits >= 0x8000_0000_0000_0000 || bits == 0)
}

/// Whether the pattern is not a number.
#[verifier::when_used_as_spec(spec_is_nan)]
pub fn is_nan(bits: u64) -> (nan: bool)
    ensures
        nan == spec_is_nan(bits),
{
    bits % SIGN > INFINITY
}

/// Whether the value is at most zero.
#[verifier::when_used_as_spec(spec_non_positive)]
pub fn non_positive(bits: u64) -> (holds: bool)
    ensures
        holds == spec_non_positive(bits),
{
    !is_nan(bits) && (bits >= SIGN || bits == ZERO)
}

} // verus!
