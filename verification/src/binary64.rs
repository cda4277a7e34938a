//! Binary64 values as the library holds them: by their bit pattern.
//!
//! A number is carried as the `u64` that holds its sign, exponent and
//! fraction. The library never does arithmetic on these numbers; it tests
//! and orders them, and every test here is stated over the bit pattern alone.
use vstd::prelude::*;

verus! {

/// The sign bit of a bit pattern.
pub const SIGN_BIT: u64 = 0x8000_0000_0000_0000;

/// The pattern of positive infinity: every exponent bit set, no fraction bit.
pub const POSITIVE_INFINITY: u64 = 0x7ff0_0000_0000_0000;

/// The pattern of positive zero.
pub const ZERO: u64 = 0;

/// The pattern of the largest finite number, which callers use to mark a
/// missing value.
pub const MAX_FINITE: u64 = 0x7fef_ffff_ffff_ffff;

/// The pattern of the number 45.
pub const FORTY_FIVE: u64 = 0x4046_8000_0000_0000;

/// The pattern with the sign bit cleared.
pub open spec fn spec_magnitude(bits: u64) -> u64 {
    if bits >= SIGN_BIT {
        (bits - SIGN_BIT) as u64
    } else {
        bits
    }
}

/// Whether the pattern is not a number.
pub open spec fn spec_is_nan(bits: u64) -> bool {
    spec_magnitude(bits) > POSITIVE_INFINITY
}

/// Whether the pattern is one of the two infinities.
pub open spec fn spec_is_infinite(bits: u64) -> bool {
    spec_magnitude(bits) == POSITIVE_INFINITY
}

/// The place of a pattern on the number line: patterns that are numbers are
/// ordered as their ranks are, and the two zeros share rank 0.
pub open spec fn rank(bits: u64) -> int {
    if bits >= SIGN_BIT {
        -(spec_magnitude(bits) as int)
    } else {
        bits as int
    }
}

/// `a < b` as numbers: false as soon as one side is not a number.
pub open spec fn spec_lt(a: u64, b: u64) -> bool {
    !spec_is_nan(a) && !spec_is_nan(b) && rank(a) < rank(b)
}

/// `a <= b` as numbers: false as soon as one side is not a number.
pub open spec fn spec_le(a: u64, b: u64) -> bool {
    !spec_is_nan(a) && !spec_is_nan(b) && rank(a) <= rank(b)
}

/// `a == b` as numbers: the two zeros are equal, and what is not a number
/// equals nothing.
pub open spec fn spec_eq(a: u64, b: u64) -> bool {
    !spec_is_nan(a) && !spec_is_nan(b) && rank(a) == rank(b)
}

/// The larger of two numbers. Where one side is not a number the other side
/// is the result; where the two compare equal the first is.
pub open spec fn spec_max(a: u64, b: u64) -> u64 {
    if spec_is_nan(a) || spec_lt(a, b) {
        b
    } else {
        a
    }
}

/// The smaller of two numbers. Where one side is not a number the other side
/// is the result; where the two compare equal the first is.
pub open spec fn spec_min(a: u64, b: u64) -> u64 {
    if spec_is_nan(a) || spec_lt(b, a) {
        b
    } else {
        a
    }
}

#[verifier::when_used_as_spec(spec_magnitude)]
pub fn magnitude(bits: u64) -> (r: u64)
    ensures
        r == spec_magnitude(bits),
        r < SIGN_BIT,
{
    if bits >= SIGN_BIT {
        bits - SIGN_BIT
    } else {
        bits
    }
}

#[verifier::when_used_as_spec(spec_is_nan)]
pub fn is_nan(bits: u64) -> (r: bool)
    ensures
        r == spec_is_nan(bits),
{
    magnitude(bits) > POSITIVE_INFINITY
}

#[verifier::when_used_as_spec(spec_is_infinite)]
pub fn is_infinite(bits: u64) -> (r: bool)
    ensures
        r == spec_is_infinite(bits),
{
    magnitude(bits) == POSITIVE_INFINITY
}

#[verifier::when_used_as_spec(spec_lt)]
pub fn lt(a: u64, b: u64) -> (r: bool)
    ensures
        r == spec_lt(a, b),
{
    if is_nan(a) || is_nan(b) {
        return false;
    }
    let ma: u64 = magnitude(a);
    let mb: u64 = magnitude(b);
    if a >= SIGN_BIT {
        if b >= SIGN_BIT {
            mb < ma
        } else {
            ma != 0 || mb != 0
        }
    } else {
        b < SIGN_BIT && ma < mb
    }
}

#[verifier::when_used_as_spec(spec_le)]
pub fn le(a: u64, b: u64) -> (r: bool)
    ensures
        r == spec_le(a, b),
{
    if is_nan(a) || is_nan(b) {
        return false;
    }
    let ma: u64 = magnitude(a);
    let mb: u64 = magnitude(b);
    if a >= SIGN_BIT {
        b < SIGN_BIT || mb <= ma
    } else if b >= SIGN_BIT {
        ma == 0 && mb == 0
    } else {
        ma <= mb
    }
}

#[verifier::when_used_as_spec(spec_eq)]
pub fn eq(a: u64, b: u64) -> (r: bool)
    ensures
        r == spec_eq(a, b),
{
    if is_nan(a) || is_nan(b) {
        return false;
    }
    let ma: u64 = magnitude(a);
    let mb: u64 = magnitude(b);
    a == b || (ma == 0 && mb == 0)
}

#[verifier::when_used_as_spec(spec_max)]
pub fn max(a: u64, b: u64) -> (r: u64)
    ensures
        r == spec_max(a, b),
{
    if is_nan(a) || lt(a, b) {
        b
    } else {
        a
    }
}

#[verifier::when_used_as_spec(spec_min)]
pub fn min(a: u64, b: u64) -> (r: u64)
    ensures
        r == spec_min(a, b),
{
    if is_nan(a) || lt(b, a) {
        b
    } else {
        a
    }
}

/// Among numbers the order is total: of `a < b`, `a == b` and `b < a` exactly
/// one holds, and `<=` is `<` or `==`.
pub proof fn lemma_order_is_total(a: u64, b: u64)
    requires
        !spec_is_nan(a),
        !spec_is_nan(b),
    ensures
        spec_lt(a, b) || spec_eq(a, b) || spec_lt(b, a),
        !(spec_lt(a, b) && spec_eq(a, b)),
        !(spec_lt(a, b) && spec_lt(b, a)),
        !(spec_eq(a, b) && spec_lt(b, a)),
        spec_le(a, b) <==> spec_lt(a, b) || spec_eq(a, b),
        spec_le(a, b) <==> !spec_lt(b, a),
{
}

/// `<` followed by `<=` gives `<`, and `<=` followed by `<=` gives `<=`.
pub proof fn lemma_order_is_transitive(a: u64, b: u64, c: u64)
    ensures
        spec_lt(a, b) && spec_le(b, c) ==> spec_lt(a, c),
        spec_le(a, b) && spec_lt(b, c) ==> spec_lt(a, c),
        spec_le(a, b) && spec_le(b, c) ==> spec_le(a, c),
{
}

} // verus!
