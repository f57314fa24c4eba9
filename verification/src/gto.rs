//! The parameters of the radial integral on a basis of Gaussian-type
//! orbitals, and the atomic density that they select.

use vstd::prelude::*;
use crate::error::Error;
use crate::scalar::Real;
use crate::table::{table_bytes, table_fits};

verus! {

/// Parameters of the radial integral on a basis of Gaussian-type orbitals.
#[derive(Clone, Copy, Debug)]
pub struct SoapRadialIntegralGtoParameters {
    /// Number of radial basis functions.
    pub max_radial: usize,
    /// Highest angular order.
    pub max_angular: usize,
    /// Width of the Gaussian that stands for an atom; zero for a point.
    pub atomic_gaussian_width: Real,
    /// Distance beyond which atoms do not count.
    pub cutoff: Real,
}

/// The density that stands for an atom.
#[derive(Clone, Copy, Debug, PartialEq, Eq, Structural)]
pub enum Density {
    /// A point: the radial integral is the radial basis function itself.
    Delta,
    /// A Gaussian of the given width around the atom.
    Gaussian,
}

impl SoapRadialIntegralGtoParameters {
    /// What is wrong with the parameters, if anything: no radial function
    /// comes first, then tables too large to hold, then the cutoff, then the
    /// width.
    pub open spec fn fault(self) -> Option<Error> {
        if self.max_radial == 0 {
            Some(Error::ZeroMaxRadial)
        } else if table_bytes(self.max_angular + 1, self.max_radial as int) > isize::MAX {
            Some(Error::TableTooLarge)
        } else if !(self.cutoff.finite() && self.cutoff.positive()) {
            Some(Error::InvalidCutoff)
        } else if !(self.atomic_gaussian_width.finite() && self.atomic_gaussian_width.rank() >= 0) {
            Some(Error::InvalidGaussianWidth)
        } else {
            None
        }
    }

    /// The density that the width selects: a point for a width of zero, a
    /// Gaussian for any other.
    pub open spec fn density_spec(self) -> Density {
        if self.atomic_gaussian_width.same(Real { bits: 0 }) {
            Density::Delta
        } else {
            Density::Gaussian
        }
    }

    /// Checks the parameters.
    pub fn validate(&self) -> (r: Result<(), Error>)
        ensures
            r == match self.fault() {
                Some(e) => Err::<(), Error>(e),
                None => Ok(()),
            },
    {
        if self.max_radial == 0 {
            return Err(Error::ZeroMaxRadial);
        }
        if self.max_angular == usize::MAX {
            assert(table_bytes(self.max_angular + 1, self.max_radial as int) > isize::MAX)
                by (nonlinear_arith)
                requires
                    self.max_angular == usize::MAX,
                    self.max_radial >= 1,
                    isize::MAX < usize::MAX,
                    table_bytes(self.max_angular + 1, self.max_radial as int) == (self.max_angular
                        + 1) * self.max_radial * 8,
            ;
            return Err(Error::TableTooLarge);
        }
        if !table_fits(self.max_angular + 1, self.max_radial) {
            return Err(Error::TableTooLarge);
        }
        if !(self.cutoff.is_finite() && self.cutoff.is_positive()) {
            return Err(Error::InvalidCutoff);
        }
        let width = self.atomic_gaussian_width;
        if !(width.is_finite() && Real::zero().le(width)) {
            return Err(Error::InvalidGaussianWidth);
        }
        Ok(())
    }

    /// The density that the width selects.
    pub fn density(&self) -> (density: Density)
        ensures
            density == self.density_spec(),
    {
        if self.atomic_gaussian_width == Real::zero() {
            Density::Delta
        } else {
            Density::Gaussian
        }
    }
}

} // verus!
