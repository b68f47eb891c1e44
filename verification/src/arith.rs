use vstd::prelude::*;
use rustc_apfloat::Float;

verus! {

// IEEE 754 binary64 arithmetic on bit patterns. Each rounding operation is
// a pure function of its operand patterns; the four the filters use are
// named below and computed by rustc_apfloat's software implementation of
// IEEE 754 (round to nearest, ties to even), the same code rustc itself
// uses to evaluate `f64` arithmetic at compile time.

/// The binary64 sum of the numbers behind `a` and `b`.
pub uninterp spec fn ieee_add(a: u64, b: u64) -> u64;

/// The binary64 difference of the numbers behind `a` and `b`.
pub uninterp spec fn ieee_sub(a: u64, b: u64) -> u64;

/// The binary64 product of the numbers behind `a` and `b`.
pub uninterp spec fn ieee_mul(a: u64, b: u64) -> u64;

/// The binary64 quotient of the numbers behind `a` and `b`.
pub uninterp spec fn ieee_div(a: u64, b: u64) -> u64;

/// Relies on rustc_apfloat's `Double` addition (`add_r`, round to nearest,
/// ties to even): a total, deterministic function of the two bit patterns.
#[verifier::external_body]
pub(crate) fn fadd(a: u64, b: u64) -> (r: u64)
    ensures
        r == ieee_add(a, b),
{
    let x = rustc_apfloat::ieee::Double::from_bits(a as u128);
    let y = rustc_apfloat::ieee::Double::from_bits(b as u128);
    (x + y).value.to_bits() as u64
}

/// Relies on rustc_apfloat's `Double` subtraction (`sub_r`, round to
/// nearest, ties to even): a total, deterministic function of the patterns.
#[verifier::external_body]
pub(crate) fn fsub(a: u64, b: u64) -> (r: u64)
    ensures
        r == ieee_sub(a, b),
{
    let x = rustc_apfloat::ieee::Double::from_bits(a as u128);
    let y = rustc_apfloat::ieee::Double::from_bits(b as u128);
    (x - y).value.to_bits() as u64
}

/// Relies on rustc_apfloat's `Double` multiplication (`mul_r`, round to
/// nearest, ties to even): a total, deterministic function of the patterns.
#[verifier::external_body]
pub(crate) fn fmul(a: u64, b: u64) -> (r: u64)
    ensures
        r == ieee_mul(a, b),
{
    let x = rustc_apfloat::ieee::Double::from_bits(a as u128);
    let y = rustc_apfloat::ieee::Double::from_bits(b as u128);
    (x * y).value.to_bits() as u64
}

/// Relies on rustc_apfloat's `Double` division (`div_r`, round to nearest,
/// ties to even): a total, deterministic function of the patterns.
#[verifier::external_body]
pub(crate) fn fdiv(a: u64, b: u64) -> (r: u64)
    ensures
        r == ieee_div(a, b),
{
    let x = rustc_apfloat::ieee::Double::from_bits(a as u128);
    let y = rustc_apfloat::ieee::Double::from_bits(b as u128);
    (x / y).value.to_bits() as u64
}

} // verus!
