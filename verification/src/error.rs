//! What can go wrong when a radial integral is set up.

use vstd::prelude::*;

verus! {

/// The reasons for which setting up a radial integral fails.
///
/// All but the last two are faults of the configuration, found before any
/// number is computed.
#[derive(Clone, Copy, Debug, PartialEq, Eq, Structural)]
pub enum Error {
    /// `max_radial` is zero: there is no radial basis function.
    ZeroMaxRadial,
    /// `max_angular + 1` is no number of rows, or a table with that many
    /// rows and `max_radial` columns cannot be held in memory.
    TableTooLarge,
    /// The cutoff is not a finite number above zero.
    InvalidCutoff,
    /// The width of the atomic Gaussian is not a finite number, or is
    /// below zero.
    InvalidGaussianWidth,
    /// The accuracy asked of a spline is not a number, or is below zero.
    InvalidAccuracy,
    /// A spline needs two points at least.
    TooFewPoints,
    /// A point of a spline carries a table of values or of gradients that
    /// has not `max_angular + 1` rows and `max_radial` columns.
    PointShapeMismatch,
    /// The positions of the points of a spline are not finite or do not
    /// rise strictly from each point to the next.
    PointsNotSorted,
    /// A spline could not be brought to the accuracy asked for within the
    /// number of halvings allowed.
    AccuracyNotReached,
    /// Something that should never happen did.
    Internal,
}

impl Error {
    /// Whether the error is a fault of the configuration.
    pub open spec fn invalid_parameter(self) -> bool {
        self != Error::AccuracyNotReached && self != Error::Internal
    }

    /// Whether the error is a fault of the configuration, as opposed to a
    /// failure while computing.
    pub fn is_invalid_parameter(&self) -> (r: bool)
        ensures
            r == self.invalid_parameter(),
    {
        match self {
            Error::AccuracyNotReached => false,
            Error::Internal => false,
            _ => true,
        }
    }

    /// The error in words.
    pub fn message(&self) -> (text: &'static str)
        ensures
            text@ == match *self {
                Error::ZeroMaxRadial => "max_radial must be at least 1"@,
                Error::TableTooLarge => "max_angular and max_radial are too large"@,
                Error::InvalidCutoff => "cutoff must be a positive finite number"@,
                Error::InvalidGaussianWidth => "atomic_gaussian_width must be a finite number that is not negative"@,
                Error::InvalidAccuracy => "spline_accuracy must be a number that is not negative"@,
                Error::TooFewPoints => "a spline needs at least two points"@,
                Error::PointShapeMismatch => "values and gradients of a spline point must have max_angular + 1 rows and max_radial columns"@,
                Error::PointsNotSorted => "positions of spline points must be finite and strictly increasing"@,
                Error::AccuracyNotReached => "failed to reach the requested accuracy in the spline"@,
                Error::Internal => "internal error"@,
            },
    {
        match self {
            Error::ZeroMaxRadial => "max_radial must be at least 1",
            Error::TableTooLarge => "max_angular and max_radial are too large",
            Error::InvalidCutoff => "cutoff must be a positive finite number",
            Error::InvalidGaussianWidth => "atomic_gaussian_width must be a finite number that is not negative",
            Error::InvalidAccuracy => "spline_accuracy must be a number that is not negative",
            Error::TooFewPoints => "a spline needs at least two points",
            Error::PointShapeMismatch => "values and gradients of a spline point must have max_angular + 1 rows and max_radial columns",
            Error::PointsNotSorted => "positions of spline points must be finite and strictly increasing",
            Error::AccuracyNotReached => "failed to reach the requested accuracy in the spline",
            Error::Internal => "internal error",
        }
    }
}

} // verus!
