use vstd::prelude::*;

verus! {

/// Failure taxonomy of the numerical routines.
///
/// Scalar inputs and offending values are IEEE 754 binary64 bit patterns
/// (see `crate::fbits`), so `value` carries the bits of the rejected number.
#[derive(Debug, Clone, PartialEq)]
pub enum MathError {
    /// Not enough data to compute a requested quantity deterministically.
    InsufficientDataAlgo { required: usize, actual: usize },
    /// Invalid parameter value or domain violation at the API boundary.
    InvalidParameter { parameter: String, value: u64, constraint: String },
    /// Invalid input data (shape, finiteness, and the like).
    InvalidData(String),
    /// A numerical operation produced a non-finite intermediate value.
    NumericalError { reason: String, operation: Option<String> },
    /// The computation became numerically unstable (ill-conditioning,
    /// singularity, overflow risk).
    NumericalInstability(String),
    /// Generic deterministic failure for internal consistency checks.
    CalculationError(String),
}

} // verus!
