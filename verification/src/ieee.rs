//! Reading an IEEE-754 double through its 64-bit pattern.
//!
//! A `Float` value of the language is held as the bit pattern of a double. What the
//! interpreter decides about such a value (whether it is zero, how two of them
//! compare) can be read off the pattern with integer operations alone. Arithmetic on
//! doubles is not done here.

use vstd::prelude::*;

verus! {

/// The pattern of `+0.0`.
pub const ZERO: u64 = 0;

/// The pattern of `1.0`.
pub const ONE: u64 = 0x3ff0_0000_0000_0000;

/// The pattern of positive infinity; every pattern whose magnitude is larger is a NaN.
pub const INFINITY: u64 = 0x7ff0_0000_0000_0000;

/// The pattern without its sign bit.
pub open spec fn magnitude(bits: u64) -> u64 {
    bits & 0x7fff_ffff_ffff_ffff
}

/// Whether the sign bit is set.
pub open spec fn negative(bits: u64) -> bool {
    bits & 0x8000_0000_0000_0000 != 0
}

/// Whether the pattern is a NaN.
pub open spec fn is_nan(bits: u64) -> bool {
    magnitude(bits) > INFINITY
}

/// Whether the double differs from zero (`x != 0.0`): true of every pattern but
/// `+0.0` and `-0.0`, NaN included.
pub open spec fn nonzero(bits: u64) -> bool {
    magnitude(bits) != 0
}

/// A number that orders the non-NaN patterns as their doubles are ordered:
/// the magnitude, negated where the sign bit is set. Both zeros rank 0.
pub open spec fn rank(bits: u64) -> int {
    if negative(bits) {
        -(magnitude(bits) as int)
    } else {
        magnitude(bits) as int
    }
}

/// `a < b` on doubles: false as soon as either is a NaN.
pub open spec fn less(a: u64, b: u64) -> bool {
    !is_nan(a) && !is_nan(b) && rank(a) < rank(b)
}

/// `a == b` on doubles: false as soon as either is a NaN; the two zeros are equal.
pub open spec fn equal(a: u64, b: u64) -> bool {
    !is_nan(a) && !is_nan(b) && rank(a) == rank(b)
}

/// `a <= b` on doubles.
pub open spec fn less_or_equal(a: u64, b: u64) -> bool {
    !is_nan(a) && !is_nan(b) && rank(a) <= rank(b)
}

/// Executable form of [`nonzero`].
pub fn is_nonzero(bits: u64) -> (r: bool)
    ensures
        r == nonzero(bits),
{
    bits & 0x7fff_ffff_ffff_ffff != 0
}

/// Executable form of [`is_nan`].
pub fn nan(bits: u64) -> (r: bool)
    ensures
        r == is_nan(bits),
{
    bits & 0x7fff_ffff_ffff_ffff > INFINITY
}

/// Executable form of [`rank`].
pub fn rank_of(bits: u64) -> (r: i128)
    ensures
        r == rank(bits),
{
    let size: u64 = bits & 0x7fff_ffff_ffff_ffff;
    if bits & 0x8000_0000_0000_0000 != 0 {
        -(size as i128)
    } else {
        size as i128
    }
}

/// Executable form of [`less`].
pub fn is_less(a: u64, b: u64) -> (r: bool)
    ensures
        r == less(a, b),
{
    !nan(a) && !nan(b) && rank_of(a) < rank_of(b)
}

/// Executable form of [`equal`].
pub fn is_equal(a: u64, b: u64) -> (r: bool)
    ensures
        r == equal(a, b),
{
    !nan(a) && !nan(b) && rank_of(a) == rank_of(b)
}

/// Executable form of [`less_or_equal`].
pub fn is_less_or_equal(a: u64, b: u64) -> (r: bool)
    ensures
        r == less_or_equal(a, b),
{
    !nan(a) && !nan(b) && rank_of(a) <= rank_of(b)
}

} // verus!
