//! The choice of radial basis.

use vstd::prelude::*;
use crate::scalar::Real;
use crate::spline::SplinePoint;

verus! {

/// The radial basis of a radial integral.
#[derive(Debug)]
pub enum RadialBasis {
    /// Gaussian-type orbitals, evaluated in closed form or through a
    /// spline of the closed form.
    Gto {
        /// Whether to evaluate through a spline.
        splined_radial_integral: bool,
        /// The error that the spline may have in any cell.
        spline_accuracy: Real,
    },
    /// A radial integral given by its values and gradients at chosen
    /// distances, and by the spline through them in between.
    TabulatedRadialIntegral {
        /// The points, by rising distance.
        points: Vec<SplinePoint>,
    },
}

} // verus!
