//! What an operation asks of its input before it measures anything.
//!
//! No operation of the engine fails: where its input falls short, it answers
//! with its default, an empty list or a record of zeros. This module says
//! when an input falls short, and why.

use vstd::prelude::*;

verus! {

/// Why an operation answers with its default.
#[derive(Clone, Copy, Debug, PartialEq, Eq, Structural)]
pub enum InputFault {
    /// The series is shorter than the operation needs.
    InsufficientData,
    /// Paired series differ in length.
    ParameterMismatch,
}

/// Points that an average, a median, a quantile, a regression or an accuracy
/// measure needs.
pub const ANY_POINTS: usize = 1;

/// Points that a sample variance needs, and with it a standard deviation, a
/// z-score, a covariance and a correlation.
pub const SPREAD_POINTS: usize = 2;

/// Points that the skewness estimator needs.
pub const SKEWNESS_POINTS: usize = 3;

/// Points that the excess kurtosis needs.
pub const KURTOSIS_POINTS: usize = 4;

/// Points that the ensemble detector needs.
pub const ENSEMBLE_POINTS: usize = 3;

/// The fault of a series of `len` points for an operation that needs
/// `needed` of them.
pub open spec fn series_fault(len: int, needed: int) -> Option<InputFault> {
    if len < needed {
        Some(InputFault::InsufficientData)
    } else {
        None
    }
}

/// The fault of two paired series of `left` and `right` points for an
/// operation that needs `needed` pairs: a difference in length comes first.
pub open spec fn paired_fault(left: int, right: int, needed: int) -> Option<InputFault> {
    if left != right {
        Some(InputFault::ParameterMismatch)
    } else {
        series_fault(left, needed)
    }
}

pub fn check_series(len: usize, needed: usize) -> (fault: Option<InputFault>)
    ensures
        fault == series_fault(len as int, needed as int),
{
    if len < needed {
        Some(InputFault::InsufficientData)
    } else {
        None
    }
}

pub fn check_paired(left: usize, right: usize, needed: usize) -> (fault: Option<InputFault>)
    ensures
        fault == paired_fault(left as int, right as int, needed as int),
{
    if left != right {
        Some(InputFault::ParameterMismatch)
    } else {
        check_series(left, needed)
    }
}

} // verus!
