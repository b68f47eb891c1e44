//! Verified online Bayesian filtering of a noisy scalar series under two
//! linear-Gaussian state-space models: a local-level (random walk) filter
//! and a local-linear-trend filter.
//!
//! Every number crosses the API as its IEEE 754 binary64 bit pattern
//! (`u64`). Validation, variance clamping, error selection and both
//! recursions are verified down to the bit level against specification
//! models in `kalman` and `trend`; only the four rounding arithmetic
//! operations are delegated, through the trusted wrappers in `arith`, to
//! rustc_apfloat's software IEEE 754 implementation.

use vstd::prelude::*;

pub mod arith;
pub mod errors;
pub mod fbits;
pub mod kalman;
pub mod trend;

pub use crate::errors::MathError;
pub use crate::kalman::kalman_local_level_filter;
pub use crate::kalman::kalman_local_level_filter_into;
pub use crate::trend::kalman_local_linear_trend_filter;
pub use crate::trend::kalman_local_linear_trend_filter_into;

verus! {

/// Every public entry point reports failure through this alias.
pub type MathResult<T> = Result<T, crate::errors::MathError>;

} // verus!
