//! Predicates on the IEEE 754 single-precision encoding of a scalar.
//!
//! Bit 31 is the sign, bits 30..23 the exponent, bits 22..0 the fraction. With
//! the sign cleared the encodings are ordered as the magnitudes they stand
//! for, the infinities follow the largest finite magnitude, and every
//! not-a-number follows the infinities.

use vstd::prelude::*;

verus! {

/// Encoding of positive zero.
pub const ZERO: u32 = 0;

/// Encoding of one.
pub const ONE: u32 = 0x3f80_0000;

/// Encoding of positive infinity: exponent all ones, fraction zero.
pub const INFINITY: u32 = 0x7f80_0000;

/// The sign bit alone, which is also the encoding of negative zero.
pub const SIGN: u32 = 0x8000_0000;

/// The encoding with its sign bit cleared.
pub open spec fn magnitude(bits: u32) -> int {
    bits as int % 0x8000_0000
}

/// The scalar is neither an infinity nor a not-a-number.
pub open spec fn finite(bits: u32) -> bool {
    magnitude(bits) < 0x7f80_0000
}

/// The scalar compares greater than zero: the sign is clear, the value is not
/// zero, and it is not a not-a-number. Positive infinity counts.
pub open spec fn positive(bits: u32) -> bool {
    0 < bits <= 0x7f80_0000
}

/// The scalar lies strictly between zero and one.
pub open spec fn in_open_unit(bits: u32) -> bool {
    0 < bits < 0x3f80_0000
}

/// Whether `bits` encodes a finite scalar.
pub fn is_finite(bits: u32) -> (r: bool)
    ensures
        r == finite(bits),
{
    bits % SIGN < INFINITY
}

/// Whether `bits` encodes a scalar greater than zero.
pub fn is_positive(bits: u32) -> (r: bool)
    ensures
        r == positive(bits),
{
    ZERO < bits && bits <= INFINITY
}

/// Whether `bits` encodes a scalar strictly between zero and one.
pub fn is_probability(bits: u32) -> (r: bool)
    ensures
        r == in_open_unit(bits),
{
    ZERO < bits && bits < ONE
}

} // verus!
