//! The errors that clocks and conversions report.

use vstd::prelude::*;

verus! {

/// Why a clock could not be read.
#[derive(Clone, Copy, Debug, PartialEq, Eq, Structural)]
pub enum ClockError {
    /// The underlying time source has not been started or is unavailable.
    NotRunning,
}

/// Why an operation on fractions or durations produced no value.
#[derive(Clone, Copy, Debug, PartialEq, Eq, Structural)]
pub enum ConversionError {
    /// The true result does not fit the integer width it was asked for.
    ConversionOverflow,
    /// The ratio of two fractions, in lowest terms, does not fit a `Fraction`.
    FractionOverflow,
    /// The operation would divide by a fraction whose value is zero.
    DivByZero,
    /// The result would be a negative length of time.
    NegDuration,
}

} // verus!
