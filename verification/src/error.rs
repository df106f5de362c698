//! The ways in which a computation can refuse its input.
use vstd::prelude::*;

verus! {

/// Why an input was rejected. Every error is final for the call that
/// produced it; nothing is retried.
#[derive(Clone, Copy, Debug, PartialEq, Eq, Structural)]
pub enum TaxError {
    /// The salary is not a non-negative amount of money that fits the
    /// amount type, or its annual equivalent does not.
    InvalidSalary,
    /// The bands do not partition income from zero upwards with valid,
    /// non-decreasing rates.
    InvalidBandTable,
}

impl TaxError {
    /// A short message for the user.
    pub fn message(&self) -> (text: &'static str)
        ensures
            text@ == (match *self {
                TaxError::InvalidSalary => "invalid salary"@,
                TaxError::InvalidBandTable => "invalid band table"@,
            }),
    {
        match self {
            TaxError::InvalidSalary => "invalid salary",
            TaxError::InvalidBandTable => "invalid band table",
        }
    }
}

} // verus!
