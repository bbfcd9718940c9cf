//! Numbers: IEEE-754 doubles, held as their 64 bits.
//!
//! What can be read off the bits is computed here: whether a number is a
//! NaN, its negation, and how two numbers compare. Sums, differences,
//! products, quotients, and the conversions from and to decimal text are the
//! work of the floating-point unit, and are asked of the caller.

use vstd::prelude::*;

verus! {

/// The sign bit of a double.
pub const SIGN: u64 = 0x8000_0000_0000_0000;

/// The exponent bits of a double.
pub const EXPONENT: u64 = 0x7ff0_0000_0000_0000;

/// The fraction bits of a double.
pub const FRACTION: u64 = 0x000f_ffff_ffff_ffff;

/// The bits of a double without its sign.
pub const MAGNITUDE: u64 = 0x7fff_ffff_ffff_ffff;

/// A NaN has all exponent bits set and a fraction that is not zero.
pub open spec fn is_nan(bits: u64) -> bool {
    bits & EXPONENT == EXPONENT && bits & FRACTION != 0
}

/// Doubles that are no NaN are ordered as their bits are, read as a sign and
/// a magnitude; the two zeros have the same place.
pub open spec fn order_key(bits: u64) -> int {
    if bits & SIGN != 0 {
        -((bits & MAGNITUDE) as int)
    } else {
        (bits & MAGNITUDE) as int
    }
}

/// `a == b` on doubles: false where either is a NaN.
pub open spec fn equals(a: u64, b: u64) -> bool {
    !is_nan(a) && !is_nan(b) && order_key(a) == order_key(b)
}

/// `a < b` on doubles: false where either is a NaN.
pub open spec fn less_than(a: u64, b: u64) -> bool {
    !is_nan(a) && !is_nan(b) && order_key(a) < order_key(b)
}

/// `a <= b` on doubles: false where either is a NaN.
pub open spec fn at_most(a: u64, b: u64) -> bool {
    !is_nan(a) && !is_nan(b) && order_key(a) <= order_key(b)
}

/// `-a` on doubles: the other sign, a NaN included.
pub open spec fn negation(bits: u64) -> u64 {
    bits ^ SIGN
}

pub fn nan(bits: u64) -> (yes: bool)
    ensures
        yes == is_nan(bits),
{
    (bits & EXPONENT) == EXPONENT && (bits & FRACTION) != 0
}

pub fn key(bits: u64) -> (place: i128)
    ensures
        place == order_key(bits),
{
    let magnitude: u64 = bits & MAGNITUDE;
    if (bits & SIGN) != 0 {
        -(magnitude as i128)
    } else {
        magnitude as i128
    }
}

pub fn eq(a: u64, b: u64) -> (yes: bool)
    ensures
        yes == equals(a, b),
{
    !nan(a) && !nan(b) && key(a) == key(b)
}

pub fn lt(a: u64, b: u64) -> (yes: bool)
    ensures
        yes == less_than(a, b),
{
    !nan(a) && !nan(b) && key(a) < key(b)
}

pub fn le(a: u64, b: u64) -> (yes: bool)
    ensures
        yes == at_most(a, b),
{
    !nan(a) && !nan(b) && key(a) <= key(b)
}

pub fn neg(bits: u64) -> (flipped: u64)
    ensures
        flipped == negation(bits),
{
    bits ^ SIGN
}

/// Equality on doubles is symmetric.
pub proof fn lemma_equals_symmetric(a: u64, b: u64)
    ensures
        equals(a, b) == equals(b, a),
{
}

/// A double that is no NaN equals itself.
pub proof fn lemma_equals_reflexive(a: u64)
    requires
        !is_nan(a),
    ensures
        equals(a, a),
{
}

/// A NaN equals nothing, itself included.
pub proof fn lemma_nan_equals_nothing(a: u64, b: u64)
    requires
        is_nan(a),
    ensures
        !equals(a, b),
        !equals(b, a),
{
}

} // verus!
