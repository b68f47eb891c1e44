use vstd::prelude::*;

verus! {

// The filters work on IEEE 754 binary64 numbers carried as their 64-bit
// patterns: bit 63 the sign, bits 62..52 the exponent, bits 51..0 the
// fraction. Classification (finite, NaN) and every comparison against zero
// or against the round-off tolerance that the filters need are pure bit
// tests, defined and verified here; only the rounding arithmetic itself is
// delegated (see `crate::arith`).

/// Exponent field mask of a binary64 pattern.
pub const F64_EXP_MASK: u64 = 0x7FF0_0000_0000_0000;

/// Fraction field mask of a binary64 pattern.
pub const F64_FRAC_MASK: u64 = 0x000F_FFFF_FFFF_FFFF;

/// Sign bit of a binary64 pattern.
pub const F64_SIGN_MASK: u64 = 0x8000_0000_0000_0000;

/// Magnitude (everything but the sign) of a binary64 pattern.
pub const F64_MAG_MASK: u64 = 0x7FFF_FFFF_FFFF_FFFF;

/// The pattern of +0.0.
pub const F64_POS_ZERO: u64 = 0;

/// The pattern of 1.0.
pub const F64_ONE: u64 = 0x3FF0_0000_0000_0000;

/// The pattern of 2.0.
pub const F64_TWO: u64 = 0x4000_0000_0000_0000;

/// The pattern of 1e-15, the tolerance under which a negative variance is
/// attributed to round-off and snapped to zero.
pub const TINY_NEG_CLAMP: u64 = 0x3CD2_03AF_9EE7_5616;

/// The pattern is a NaN: exponent all ones, fraction not zero.
pub open spec fn is_nan_bits(x: u64) -> bool {
    x & F64_EXP_MASK == F64_EXP_MASK && x & F64_FRAC_MASK != 0
}

/// The pattern is finite (neither an infinity nor a NaN).
pub open spec fn is_finite_bits(x: u64) -> bool {
    x & F64_EXP_MASK != F64_EXP_MASK
}

/// The pattern is a zero (+0.0 or -0.0), the only values whose magnitude
/// field is all zeros.
pub open spec fn is_zero_bits(x: u64) -> bool {
    x & F64_MAG_MASK == 0
}

/// The number compares `< 0.0`: not a NaN, sign bit set, and not a zero
/// (-0.0 compares equal to 0.0).
pub open spec fn lt_zero_bits(x: u64) -> bool {
    !is_nan_bits(x) && x & F64_SIGN_MASK != 0 && !is_zero_bits(x)
}

/// The number compares `<= 0.0`: not a NaN, and negative or a zero.
pub open spec fn le_zero_bits(x: u64) -> bool {
    !is_nan_bits(x) && (x & F64_SIGN_MASK != 0 || is_zero_bits(x))
}

/// The number compares `> 0.0`: not a NaN, sign bit clear, and not a zero.
pub open spec fn gt_zero_bits(x: u64) -> bool {
    !is_nan_bits(x) && x & F64_SIGN_MASK == 0 && !is_zero_bits(x)
}

/// The number compares `>= 0.0`: not a NaN, and positive or a zero.
pub open spec fn ge_zero_bits(x: u64) -> bool {
    !is_nan_bits(x) && (x & F64_SIGN_MASK == 0 || is_zero_bits(x))
}

/// A finite number satisfies `abs(x) <= 1e-15`. On patterns of one sign the
/// binary64 order agrees with the unsigned order of the magnitude bits, so
/// the comparison is a bit test.
pub open spec fn within_neg_tol(x: u64) -> bool {
    x & F64_MAG_MASK <= TINY_NEG_CLAMP
}

/// IEEE 754 negation: the sign bit flips and nothing else moves.
pub open spec fn negate_bits(x: u64) -> u64 {
    x ^ F64_SIGN_MASK
}

/// Runtime test for `is_finite_bits`.
pub fn check_finite(x: u64) -> (r: bool)
    ensures
        r == is_finite_bits(x),
{
    x & F64_EXP_MASK != F64_EXP_MASK
}

/// Runtime test for `lt_zero_bits` (the number compares `< 0.0`).
pub fn check_lt_zero(x: u64) -> (r: bool)
    ensures
        r == lt_zero_bits(x),
{
    !(x & F64_EXP_MASK == F64_EXP_MASK && x & F64_FRAC_MASK != 0) && x & F64_SIGN_MASK != 0
        && x & F64_MAG_MASK != 0
}

/// Runtime test for `le_zero_bits` (the number compares `<= 0.0`).
pub fn check_le_zero(x: u64) -> (r: bool)
    ensures
        r == le_zero_bits(x),
{
    !(x & F64_EXP_MASK == F64_EXP_MASK && x & F64_FRAC_MASK != 0) && (x & F64_SIGN_MASK != 0
        || x & F64_MAG_MASK == 0)
}

/// Runtime test for `gt_zero_bits` (the number compares `> 0.0`).
pub fn check_gt_zero(x: u64) -> (r: bool)
    ensures
        r == gt_zero_bits(x),
{
    !(x & F64_EXP_MASK == F64_EXP_MASK && x & F64_FRAC_MASK != 0) && x & F64_SIGN_MASK == 0
        && x & F64_MAG_MASK != 0
}

/// Runtime test for `ge_zero_bits` (the number compares `>= 0.0`).
pub fn check_ge_zero(x: u64) -> (r: bool)
    ensures
        r == ge_zero_bits(x),
{
    !(x & F64_EXP_MASK == F64_EXP_MASK && x & F64_FRAC_MASK != 0) && (x & F64_SIGN_MASK == 0
        || x & F64_MAG_MASK == 0)
}

/// Runtime test for `within_neg_tol` (the magnitude is at most 1e-15).
pub fn check_within_neg_tol(x: u64) -> (r: bool)
    ensures
        r == within_neg_tol(x),
{
    x & F64_MAG_MASK <= TINY_NEG_CLAMP
}

/// Runtime negation of a binary64 pattern.
pub fn negate(x: u64) -> (r: u64)
    ensures
        r == negate_bits(x),
{
    x ^ F64_SIGN_MASK
}

} // verus!
