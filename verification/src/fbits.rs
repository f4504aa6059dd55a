//! Bit-level model of IEEE 754 binary64 values.
//!
//! Quality estimates and rewards are real numbers at the boundary of this
//! crate, carried here as the 64-bit encodings of binary64 values. This
//! module defines the strict "greater than" ordering of the encoded values,
//! stated purely over the encodings: a NaN encoding compares greater than
//! nothing, the two zero encodings are equal, encodings with a clear sign bit
//! order by their numeric value, and encodings with a set sign bit order in
//! reverse.

use vstd::prelude::*;

verus! {

/// The smallest encoding with a set sign bit; also the encoding of negative
/// zero.
pub const SIGN_THRESHOLD: u64 = 0x8000_0000_0000_0000;

/// The largest magnitude of a non-NaN encoding (the encoding of positive
/// infinity); every larger magnitude encodes a NaN.
pub const MAX_FINITE_OR_INF_MAGNITUDE: u64 = 0x7FF0_0000_0000_0000;

/// The encoding of positive zero.
pub const ZERO_BITS: u64 = 0;

/// The magnitude of an encoding: its value with the sign bit cleared.
pub open spec fn magnitude(a: u64) -> u64 {
    if a >= SIGN_THRESHOLD {
        (a - SIGN_THRESHOLD) as u64
    } else {
        a
    }
}

/// Whether the encoding carries a set sign bit.
pub open spec fn is_negative(a: u64) -> bool {
    a >= SIGN_THRESHOLD
}

/// Whether the encoding is one of the NaN encodings.
pub open spec fn is_nan(a: u64) -> bool {
    magnitude(a) > MAX_FINITE_OR_INF_MAGNITUDE
}

/// Whether the encoding is one of the two zero encodings.
pub open spec fn is_zero(a: u64) -> bool {
    magnitude(a) == 0
}

/// Strict "greater than" on encoded binary64 values: false whenever either
/// side is a NaN encoding or both are zero encodings; otherwise a value with
/// a clear sign bit beats one with a set sign bit, values of equal sign
/// compare by their encodings, reversed when both signs are set.
pub open spec fn gt(a: u64, b: u64) -> bool {
    if is_nan(a) || is_nan(b) {
        false
    } else if is_zero(a) && is_zero(b) {
        false
    } else if is_negative(a) != is_negative(b) {
        !is_negative(a)
    } else if !is_negative(a) {
        a > b
    } else {
        a < b
    }
}

/// Decides [`gt`] on two encodings.
pub fn gt_exec(a: u64, b: u64) -> (r: bool)
    ensures
        r == gt(a, b),
{
    let ma: u64 = if a >= SIGN_THRESHOLD {
        a - SIGN_THRESHOLD
    } else {
        a
    };
    let mb: u64 = if b >= SIGN_THRESHOLD {
        b - SIGN_THRESHOLD
    } else {
        b
    };
    if ma > MAX_FINITE_OR_INF_MAGNITUDE || mb > MAX_FINITE_OR_INF_MAGNITUDE {
        false
    } else if ma == 0 && mb == 0 {
        false
    } else if (a >= SIGN_THRESHOLD) != (b >= SIGN_THRESHOLD) {
        a < SIGN_THRESHOLD
    } else if a < SIGN_THRESHOLD {
        a > b
    } else {
        a < b
    }
}

/// No encoded value is strictly greater than itself.
pub proof fn lemma_gt_irreflexive(a: u64)
    ensures
        !gt(a, a),
{
}

/// The strict ordering of encoded values is transitive.
pub proof fn lemma_gt_transitive(a: u64, b: u64, c: u64)
    requires
        gt(a, b),
        gt(b, c),
    ensures
        gt(a, c),
{
}

} // verus!
