//! Binary64 scalars carried as bit patterns.
//!
//! Every real number in this crate is an IEEE-754 binary64 value held by its
//! 64 bits. The order of such values, their sign and their class can be read
//! off the bits exactly, so comparison, negation, absolute value, minimum,
//! maximum and clamping are defined and proved here. Rounding arithmetic
//! (sums, products, quotients, roots) is not done in this crate: callers
//! compute those values and hand the resulting bit patterns in.

use vstd::prelude::*;

verus! {

/// The sign bit of a binary64 pattern.
pub const SIGN_BIT: u64 = 0x8000_0000_0000_0000;

/// Bits of positive infinity; every larger magnitude is a NaN.
pub const INFINITY: u64 = 0x7FF0_0000_0000_0000;

/// Bits of negative infinity.
pub const NEG_INFINITY: u64 = 0xFFF0_0000_0000_0000;

/// Bits of positive zero.
pub const ZERO: u64 = 0;

/// Bits of one.
pub const ONE: u64 = 0x3FF0_0000_0000_0000;

/// Bits of one half.
pub const HALF: u64 = 0x3FE0_0000_0000_0000;

/// Whether the sign bit is set.
pub open spec fn negative(x: u64) -> bool {
    x >= SIGN_BIT
}

/// The pattern with its sign bit cleared, as a number.
pub open spec fn magnitude(x: u64) -> int {
    if x >= SIGN_BIT {
        x - SIGN_BIT
    } else {
        x as int
    }
}

/// Whether the pattern is a NaN.
pub open spec fn nan(x: u64) -> bool {
    magnitude(x) > INFINITY
}

/// Whether the pattern is a number other than an infinity or a NaN.
pub open spec fn finite(x: u64) -> bool {
    magnitude(x) < INFINITY
}

/// Position of a non-NaN pattern on the number line: strictly monotone in the
/// value it denotes, with both zeros at 0.
pub open spec fn rank(x: u64) -> int {
    if negative(x) {
        -magnitude(x)
    } else {
        magnitude(x)
    }
}

/// `a < b` as binary64 values: false whenever a NaN is involved.
pub open spec fn lt(a: u64, b: u64) -> bool {
    !nan(a) && !nan(b) && rank(a) < rank(b)
}

/// `a <= b` as binary64 values: false whenever a NaN is involved.
pub open spec fn le(a: u64, b: u64) -> bool {
    !nan(a) && !nan(b) && rank(a) <= rank(b)
}

/// `a == b` as binary64 values: the zeros are equal, a NaN equals nothing.
pub open spec fn same(a: u64, b: u64) -> bool {
    !nan(a) && !nan(b) && rank(a) == rank(b)
}

/// Position in the total order used for sorting: numbers by value, every NaN
/// above all numbers and level with every other NaN.
pub open spec fn sort_key(x: u64) -> int {
    if nan(x) {
        INFINITY + 1
    } else {
        rank(x)
    }
}

/// The pattern with its sign bit flipped.
pub open spec fn negated(x: u64) -> u64 {
    if x >= SIGN_BIT {
        (x - SIGN_BIT) as u64
    } else {
        (x + SIGN_BIT) as u64
    }
}

/// The pattern with its sign bit cleared.
pub open spec fn cleared(x: u64) -> u64 {
    if x >= SIGN_BIT {
        (x - SIGN_BIT) as u64
    } else {
        x
    }
}

/// The larger of two values; a NaN gives way to the other argument, and of
/// two equal values the first is kept.
pub open spec fn larger(a: u64, b: u64) -> u64 {
    if nan(a) || lt(a, b) {
        b
    } else {
        a
    }
}

/// The smaller of two values; a NaN gives way to the other argument, and of
/// two equal values the first is kept.
pub open spec fn smaller(a: u64, b: u64) -> u64 {
    if nan(a) || lt(b, a) {
        b
    } else {
        a
    }
}

/// `x` moved into `[lo, hi]`: `lo` when below, `hi` when above, else `x`
/// itself, bit for bit. A NaN is neither below nor above and stays.
pub open spec fn clamped(x: u64, lo: u64, hi: u64) -> u64 {
    if lt(x, lo) {
        lo
    } else if lt(hi, x) {
        hi
    } else {
        x
    }
}

/// Whether `x` lies in the closed interval `[lo, hi]`, in the sense that it
/// is neither below `lo` nor above `hi`.
pub open spec fn inside(x: u64, lo: u64, hi: u64) -> bool {
    !lt(x, lo) && !lt(hi, x)
}

/// Whether `m` lies between `a` and `b` on the number line, ends included.
pub open spec fn between(a: u64, m: u64, b: u64) -> bool {
    (le(a, m) && le(m, b)) || (le(b, m) && le(m, a))
}

fn split(x: u64) -> (r: (bool, u64))
    ensures
        r.0 == negative(x),
        r.1 == magnitude(x),
{
    if x >= SIGN_BIT {
        (true, x - SIGN_BIT)
    } else {
        (false, x)
    }
}

/// Tells whether `x` is a NaN.
pub fn is_nan(x: u64) -> (r: bool)
    ensures
        r == nan(x),
{
    split(x).1 > INFINITY
}

/// Tells whether `x` is neither infinite nor a NaN.
pub fn is_finite(x: u64) -> (r: bool)
    ensures
        r == finite(x),
{
    split(x).1 < INFINITY
}

/// Tells whether `a < b`.
pub fn less(a: u64, b: u64) -> (r: bool)
    ensures
        r == lt(a, b),
{
    let (na, ma) = split(a);
    let (nb, mb) = split(b);
    if ma > INFINITY || mb > INFINITY {
        false
    } else if na {
        if nb {
            mb < ma
        } else {
            ma > 0 || mb > 0
        }
    } else {
        !nb && ma < mb
    }
}

/// Tells whether `a <= b`.
pub fn less_eq(a: u64, b: u64) -> (r: bool)
    ensures
        r == le(a, b),
{
    let (na, ma) = split(a);
    let (nb, mb) = split(b);
    if ma > INFINITY || mb > INFINITY {
        false
    } else if na {
        if nb {
            mb <= ma
        } else {
            true
        }
    } else if nb {
        ma == 0 && mb == 0
    } else {
        ma <= mb
    }
}

/// Tells whether `a > b`.
pub fn greater(a: u64, b: u64) -> (r: bool)
    ensures
        r == lt(b, a),
{
    less(b, a)
}

/// Tells whether `a >= b`.
pub fn greater_eq(a: u64, b: u64) -> (r: bool)
    ensures
        r == le(b, a),
{
    less_eq(b, a)
}

/// Tells whether `a == b` as values.
pub fn equal(a: u64, b: u64) -> (r: bool)
    ensures
        r == same(a, b),
{
    let (na, ma) = split(a);
    let (nb, mb) = split(b);
    if ma > INFINITY || mb > INFINITY {
        false
    } else if na == nb {
        ma == mb
    } else {
        ma == 0 && mb == 0
    }
}

/// Flips the sign of `x`. Exact for every pattern, NaNs included.
pub fn negate(x: u64) -> (r: u64)
    ensures
        r == negated(x),
        magnitude(r) == magnitude(x),
        negative(r) != negative(x),
{
    if x >= SIGN_BIT {
        x - SIGN_BIT
    } else {
        x + SIGN_BIT
    }
}

/// Clears the sign of `x`.
pub fn absolute(x: u64) -> (r: u64)
    ensures
        r == cleared(x),
        !negative(r),
        magnitude(r) == magnitude(x),
{
    split(x).1
}

/// The larger of `a` and `b`.
pub fn maximum(a: u64, b: u64) -> (r: u64)
    ensures
        r == larger(a, b),
{
    if is_nan(a) || less(a, b) {
        b
    } else {
        a
    }
}

/// The smaller of `a` and `b`.
pub fn minimum(a: u64, b: u64) -> (r: u64)
    ensures
        r == smaller(a, b),
{
    if is_nan(a) || less(b, a) {
        b
    } else {
        a
    }
}

/// Moves `x` into `[lo, hi]`.
pub fn clamp(x: u64, lo: u64, hi: u64) -> (r: u64)
    requires
        le(lo, hi),
    ensures
        r == clamped(x, lo, hi),
        inside(r, lo, hi),
{
    if less(x, lo) {
        lo
    } else if less(hi, x) {
        hi
    } else {
        x
    }
}

/// A clamped value is left alone by a second clamp to the same interval.
pub proof fn lemma_clamp_idempotent(x: u64, lo: u64, hi: u64)
    requires
        le(lo, hi),
    ensures
        clamped(clamped(x, lo, hi), lo, hi) == clamped(x, lo, hi),
{
}

/// A value inside the interval is returned bit for bit.
pub proof fn lemma_clamp_fixes_inside(x: u64, lo: u64, hi: u64)
    requires
        inside(x, lo, hi),
    ensures
        clamped(x, lo, hi) == x,
{
}

/// The clamped value lies between the original and any number of the
/// interval, so on the number line it is at least as close to the original
/// as that number is.
pub proof fn lemma_clamp_nearest(x: u64, lo: u64, hi: u64, s: u64)
    requires
        le(lo, hi),
        !nan(x),
        le(lo, s),
        le(s, hi),
    ensures
        between(x, clamped(x, lo, hi), s),
{
}

} // verus!
