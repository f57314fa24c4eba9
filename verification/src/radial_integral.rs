//! The radial integral of one pair of atoms: the evaluator that computes it
//! and the tables that it is computed into.

use vstd::prelude::*;
use crate::error::Error;
use crate::gto::SoapRadialIntegralGtoParameters;
use crate::radial_basis::RadialBasis;
use crate::scalar::Real;
use crate::spline::{
    lemma_rows_are_bounded,
    SoapRadialIntegralSpline,
    SoapRadialIntegralSplineParameters,
};
use crate::table::{filled_with, table_dim, table_filled, Table};

verus! {

/// A `SoapRadialIntegral` computes the SOAP radial integral on a given radial
/// basis.
///
/// `Send` is a required super-trait to enable passing radial integrals
/// between threads. An evaluator does not change once it is made: `compute`
/// takes it by shared reference, and what it writes goes to the tables of
/// the caller.
pub trait SoapRadialIntegral: Send {
    /// What the evaluator promises of the tables that it leaves for a
    /// distance: of the values, and of the gradients where they were asked
    /// for. An evaluator that says nothing promises nothing.
    open spec fn computed(&self, rij: Real, values: Table, gradients: Option<Table>) -> bool {
        true
    }

    /// Compute the radial integral for a single `distance` between two atoms
    /// and store the resulting data in the `(max_angular + 1) x max_radial`
    /// array `values`. If `gradients` is `Some`, also compute and store
    /// gradients there.
    ///
    /// The tables keep their dimensions.
    fn compute(&self, rij: Real, values: &mut Table, gradients: Option<&mut Table>)
        ensures
            table_dim(*final(values)) == table_dim(*old(values)),
            match gradients {
                Some(g) => table_dim(*final(g)) == table_dim(*g) && self.computed(
                    rij,
                    *final(values),
                    Some(*final(g)),
                ),
                None => self.computed(rij, *final(values), None),
            },
    ;
}

/// Parameters controlling the radial integral for SOAP
#[derive(Debug, Clone, Copy)]
pub struct SoapRadialIntegralParameters {
    pub max_radial: usize,
    pub max_angular: usize,
    pub atomic_gaussian_width: Real,
    pub cutoff: Real,
}

impl SoapRadialIntegralParameters {
    /// The parameters of the integral on Gaussian-type orbitals.
    pub open spec fn gto_spec(self) -> SoapRadialIntegralGtoParameters {
        SoapRadialIntegralGtoParameters {
            max_radial: self.max_radial,
            max_angular: self.max_angular,
            atomic_gaussian_width: self.atomic_gaussian_width,
            cutoff: self.cutoff,
        }
    }

    /// The parameters of a spline of the integral.
    pub open spec fn spline_spec(self) -> SoapRadialIntegralSplineParameters {
        SoapRadialIntegralSplineParameters {
            max_radial: self.max_radial,
            max_angular: self.max_angular,
            cutoff: self.cutoff,
        }
    }

    /// The parameters of the integral on Gaussian-type orbitals.
    pub fn gto(&self) -> (parameters: SoapRadialIntegralGtoParameters)
        ensures
            parameters == self.gto_spec(),
    {
        SoapRadialIntegralGtoParameters {
            max_radial: self.max_radial,
            max_angular: self.max_angular,
            atomic_gaussian_width: self.atomic_gaussian_width,
            cutoff: self.cutoff,
        }
    }

    /// The parameters of a spline of the integral.
    pub fn spline(&self) -> (parameters: SoapRadialIntegralSplineParameters)
        ensures
            parameters == self.spline_spec(),
    {
        SoapRadialIntegralSplineParameters {
            max_radial: self.max_radial,
            max_angular: self.max_angular,
            cutoff: self.cutoff,
        }
    }
}

/// Whether an accuracy can be asked of a spline: a number that is not
/// below zero.
pub open spec fn accuracy_valid(accuracy: Real) -> bool {
    !accuracy.nan() && accuracy.rank() >= 0
}

/// Which evaluator a radial basis asks for, with the parameters to build
/// it from.
#[derive(Debug)]
pub enum EvaluatorPlan {
    /// The closed form on Gaussian-type orbitals.
    Gto(SoapRadialIntegralGtoParameters),
    /// A spline of the closed form on Gaussian-type orbitals, refined until
    /// its error in every cell is within `accuracy`.
    SplinedGto {
        gto: SoapRadialIntegralGtoParameters,
        spline: SoapRadialIntegralSplineParameters,
        accuracy: Real,
    },
    /// The spline through tabulated points, with nothing behind it.
    Tabulated(SoapRadialIntegralSpline),
}

impl EvaluatorPlan {
    /// What is wrong with a basis and its parameters, if anything. For
    /// Gaussian-type orbitals a fault of the parameters comes before one of
    /// the accuracy; for tabulated points a fault of the parameters comes
    /// before one of the points.
    pub open spec fn fault(radial_basis: RadialBasis, parameters: SoapRadialIntegralParameters) -> Option<
        Error,
    > {
        match radial_basis {
            RadialBasis::Gto { splined_radial_integral, spline_accuracy } => {
                if parameters.gto_spec().fault() is Some {
                    parameters.gto_spec().fault()
                } else if splined_radial_integral && !accuracy_valid(spline_accuracy) {
                    Some(Error::InvalidAccuracy)
                } else {
                    None
                }
            },
            RadialBasis::TabulatedRadialIntegral { points } => {
                SoapRadialIntegralSpline::tabulated_fault(parameters.spline_spec(), points@)
            },
        }
    }

    /// Whether this is the plan that the basis asks for with these
    /// parameters.
    pub open spec fn follows(
        self,
        radial_basis: RadialBasis,
        parameters: SoapRadialIntegralParameters,
    ) -> bool {
        match radial_basis {
            RadialBasis::Gto { splined_radial_integral, spline_accuracy } => {
                if splined_radial_integral {
                    self matches EvaluatorPlan::SplinedGto { gto, spline, accuracy } && gto
                        == parameters.gto_spec() && spline == parameters.spline_spec() && accuracy
                        == spline_accuracy
                } else {
                    self matches EvaluatorPlan::Gto(gto) && gto == parameters.gto_spec()
                }
            },
            RadialBasis::TabulatedRadialIntegral { points } => {
                self matches EvaluatorPlan::Tabulated(spline) && spline.wf()
                    && spline.parameters_spec() == parameters.spline_spec() && spline.nodes()
                    == points@
            },
        }
    }

    /// Chooses the evaluator for a basis, after checking the basis and the
    /// parameters.
    pub fn new(radial_basis: RadialBasis, parameters: SoapRadialIntegralParameters) -> (r: Result<
        EvaluatorPlan,
        Error,
    >)
        ensures
            match r {
                Ok(plan) => Self::fault(radial_basis, parameters) is None && plan.follows(
                    radial_basis,
                    parameters,
                ),
                Err(e) => Self::fault(radial_basis, parameters) == Some(e),
            },
    {
        match radial_basis {
            RadialBasis::Gto { splined_radial_integral, spline_accuracy } => {
                let gto = parameters.gto();
                match gto.validate() {
                    Err(e) => {
                        return Err(e);
                    },
                    Ok(()) => {},
                }
                if splined_radial_integral {
                    if spline_accuracy.is_nan() || !Real::zero().le(spline_accuracy) {
                        return Err(Error::InvalidAccuracy);
                    }
                    Ok(
                        EvaluatorPlan::SplinedGto {
                            gto,
                            spline: parameters.spline(),
                            accuracy: spline_accuracy,
                        },
                    )
                } else {
                    Ok(EvaluatorPlan::Gto(gto))
                }
            },
            RadialBasis::TabulatedRadialIntegral { points } => {
                match SoapRadialIntegralSpline::from_tabulated(parameters.spline(), points) {
                    Err(e) => Err(e),
                    Ok(spline) => Ok(EvaluatorPlan::Tabulated(spline)),
                }
            },
        }
    }
}

/// Store together a Radial integral implementation and cached allocation for
/// values/gradients.
pub struct SoapRadialIntegralCache<E: SoapRadialIntegral> {
    /// Implementation of the radial integral
    code: E,
    /// Cache for the radial integral values
    values: Table,
    /// Cache for the radial integral gradient
    gradients: Table,
}

impl<E: SoapRadialIntegral> SoapRadialIntegralCache<E> {
    /// The evaluator of the cache.
    pub closed spec fn code_spec(&self) -> E {
        self.code
    }

    /// The table of values.
    pub closed spec fn values_spec(&self) -> Table {
        self.values
    }

    /// The table of gradients.
    pub closed spec fn gradients_spec(&self) -> Table {
        self.gradients
    }

    /// Whether both tables have `max_angular + 1` rows and `max_radial`
    /// columns.
    pub open spec fn shaped(&self, max_angular: int, max_radial: int) -> bool {
        &&& table_dim(self.values_spec()) == ((max_angular + 1) as nat, max_radial as nat)
        &&& table_dim(self.gradients_spec()) == ((max_angular + 1) as nat, max_radial as nat)
    }

    /// Create a new `RadialIntegralCache` for the given radial basis &
    /// parameters.
    ///
    /// The basis and the parameters are checked and the evaluator that the
    /// basis asks for is chosen; `build` makes it; the two tables start with
    /// zero in every cell. A fault of the configuration is returned before
    /// `build` is called, and what `build` fails with is returned as it is.
    pub fn new<B: FnOnce(EvaluatorPlan) -> Result<E, Error>>(
        radial_basis: RadialBasis,
        parameters: SoapRadialIntegralParameters,
        build: B,
    ) -> (r: Result<SoapRadialIntegralCache<E>, Error>)
        requires
            forall|plan: EvaluatorPlan|
                plan.follows(radial_basis, parameters) ==> call_requires(build, (plan,)),
        ensures
            EvaluatorPlan::fault(radial_basis, parameters) matches Some(e) ==> r == Err::<
                SoapRadialIntegralCache<E>,
                Error,
            >(e),
            EvaluatorPlan::fault(radial_basis, parameters) is None ==> exists|
                plan: EvaluatorPlan,
                built: Result<E, Error>,
            |
                {
                    &&& plan.follows(radial_basis, parameters)
                    &&& call_ensures(build, (plan,), built)
                    &&& match built {
                        Err(e) => r == Err::<SoapRadialIntegralCache<E>, Error>(e),
                        Ok(code) => {
                            &&& r matches Ok(cache)
                            &&& cache.code_spec() == code
                            &&& cache.shaped(parameters.max_angular as int, parameters.max_radial as int)
                            &&& filled_with(cache.values_spec(), 0)
                            &&& filled_with(cache.gradients_spec(), 0)
                        },
                    }
                },
    {
        let plan = match EvaluatorPlan::new(radial_basis, parameters) {
            Err(e) => {
                return Err(e);
            },
            Ok(plan) => plan,
        };
        proof {
            lemma_rows_are_bounded(parameters.max_angular + 1, parameters.max_radial as int);
        }
        let ghost chosen = plan;
        let built = build(plan);
        let code = match built {
            Err(e) => {
                return Err(e);
            },
            Ok(code) => code,
        };
        let rows: usize = parameters.max_angular + 1;
        let values = table_filled(rows, parameters.max_radial, 0);
        let gradients = table_filled(rows, parameters.max_radial, 0);
        let cache = SoapRadialIntegralCache { code, values, gradients };
        proof {
            assert(chosen.follows(radial_basis, parameters) && call_ensures(build, (chosen,), built));
        }
        Ok(cache)
    }

    /// Run the calculation, the results are stored inside `self.values` and
    /// `self.gradients`.
    ///
    /// Without `gradients` the table of gradients is not touched.
    pub fn compute(&mut self, distance: Real, gradients: bool)
        ensures
            final(self).code_spec() == old(self).code_spec(),
            table_dim(final(self).values_spec()) == table_dim(old(self).values_spec()),
            table_dim(final(self).gradients_spec()) == table_dim(old(self).gradients_spec()),
            !gradients ==> final(self).gradients_spec() == old(self).gradients_spec(),
            final(self).code_spec().computed(
                distance,
                final(self).values_spec(),
                if gradients {
                    Some(final(self).gradients_spec())
                } else {
                    None
                },
            ),
    {
        if gradients {
            self.code.compute(distance, &mut self.values, Some(&mut self.gradients));
        } else {
            self.code.compute(distance, &mut self.values, None);
        }
    }

    /// The values that the last computation left.
    pub fn values(&self) -> (values: &Table)
        ensures
            *values == self.values_spec(),
    {
        &self.values
    }

    /// The gradients that the last computation with gradients left.
    pub fn gradients(&self) -> (gradients: &Table)
        ensures
            *gradients == self.gradients_spec(),
    {
        &self.gradients
    }
}

} // verus!
