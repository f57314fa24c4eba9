//! The nodes of a spline over distances: which point sets make a spline,
//! and between which two nodes a distance falls.

use vstd::prelude::*;
use crate::error::Error;
use crate::scalar::Real;
use crate::table::{table_bytes, table_dim, table_fits, Table};

verus! {

/// A node of a spline: a distance, with the table of values and the table
/// of gradients of the radial integral at that distance.
#[derive(Debug)]
pub struct SplinePoint {
    /// The distance of the node.
    pub position: Real,
    /// The values at the node, by angular order and radial index.
    pub values: Table,
    /// The gradients at the node, by angular order and radial index.
    pub gradients: Table,
}

/// Parameters of a splined radial integral.
#[derive(Clone, Copy, Debug)]
pub struct SoapRadialIntegralSplineParameters {
    /// Number of radial basis functions.
    pub max_radial: usize,
    /// Highest angular order.
    pub max_angular: usize,
    /// Distance up to which the spline is used.
    pub cutoff: Real,
}

impl SoapRadialIntegralSplineParameters {
    /// What is wrong with the parameters, if anything: no radial function
    /// comes first, then tables too large to hold, then the cutoff.
    pub open spec fn fault(self) -> Option<Error> {
        if self.max_radial == 0 {
            Some(Error::ZeroMaxRadial)
        } else if table_bytes(self.max_angular + 1, self.max_radial as int) > isize::MAX {
            Some(Error::TableTooLarge)
        } else if !(self.cutoff.finite() && self.cutoff.positive()) {
            Some(Error::InvalidCutoff)
        } else {
            None
        }
    }

    /// Checks the parameters.
    pub fn validate(&self) -> (r: Result<(), Error>)
        ensures
            r == match self.fault() {
                Some(e) => Err::<(), Error>(e),
                None => Ok(()),
            },
    {
        if self.max_radial == 0 {
            return Err(Error::ZeroMaxRadial);
        }
        if self.max_angular == usize::MAX {
            assert(table_bytes(self.max_angular + 1, self.max_radial as int) > isize::MAX)
                by (nonlinear_arith)
                requires
                    self.max_angular == usize::MAX,
                    self.max_radial >= 1,
                    isize::MAX < usize::MAX,
                    table_bytes(self.max_angular + 1, self.max_radial as int) == (self.max_angular
                        + 1) * self.max_radial * 8,
            ;
            return Err(Error::TableTooLarge);
        }
        if !table_fits(self.max_angular + 1, self.max_radial) {
            return Err(Error::TableTooLarge);
        }
        if !(self.cutoff.is_finite() && self.cutoff.is_positive()) {
            return Err(Error::InvalidCutoff);
        }
        Ok(())
    }
}

/// Tables that can be held have fewer rows than `usize` can count: where
/// `rows` rows and one column or more take no more than `isize::MAX` bytes,
/// `rows` is below that bound too.
pub proof fn lemma_rows_are_bounded(rows: int, cols: int)
    requires
        rows >= 1,
        cols >= 1,
        table_bytes(rows, cols) <= isize::MAX,
    ensures
        rows <= isize::MAX,
        cols <= isize::MAX,
        rows < usize::MAX,
{
    assert(rows <= rows * cols * 8 && cols <= rows * cols * 8) by (nonlinear_arith)
        requires
            rows >= 1,
            cols >= 1,
    ;
}

impl SplinePoint {
    /// Whether both tables of the point have the given dimensions.
    pub open spec fn fits(self, rows: int, cols: int) -> bool {
        table_dim(self.values) == (rows as nat, cols as nat) && table_dim(self.gradients) == (
            rows as nat,
            cols as nat,
        )
    }

    /// Whether both tables of the point have the given dimensions.
    pub fn has_shape(&self, rows: usize, cols: usize) -> (r: bool)
        ensures
            r == self.fits(rows as int, cols as int),
    {
        let (value_rows, value_cols) = self.values.dim();
        let (gradient_rows, gradient_cols) = self.gradients.dim();
        value_rows == rows && value_cols == cols && gradient_rows == rows && gradient_cols == cols
    }
}

/// Whether every point has tables of the given dimensions.
pub open spec fn shapes_fit(points: Seq<SplinePoint>, rows: int, cols: int) -> bool {
    forall|k: int| 0 <= k < points.len() ==> (#[trigger] points[k]).fits(rows, cols)
}

/// Whether the positions are finite and rise strictly from each point to
/// the next.
pub open spec fn positions_rise(points: Seq<SplinePoint>) -> bool {
    &&& forall|k: int| 0 <= k < points.len() ==> (#[trigger] points[k]).position.finite()
    &&& forall|k: int|
        0 <= k < points.len() - 1 ==> (#[trigger] points[k]).position.lt_spec(points[k + 1].position)
}

/// Whether the positions rise strictly between any two points.
pub open spec fn positions_ordered(points: Seq<SplinePoint>) -> bool {
    forall|i: int, j: int|
        0 <= i < j < points.len() ==> (#[trigger] points[i]).position.lt_spec(
            (#[trigger] points[j]).position,
        )
}

/// What is wrong with a set of points as the nodes of a spline with tables
/// of the given dimensions, if anything: too few points comes first, then a
/// table of other dimensions, then the order of the positions.
pub open spec fn points_fault(points: Seq<SplinePoint>, rows: int, cols: int) -> Option<Error> {
    if points.len() < 2 {
        Some(Error::TooFewPoints)
    } else if !shapes_fit(points, rows, cols) {
        Some(Error::PointShapeMismatch)
    } else if !positions_rise(points) {
        Some(Error::PointsNotSorted)
    } else {
        None
    }
}

/// Positions that rise from each point to the next rise between any two
/// points.
pub proof fn lemma_rising_positions_are_ordered(points: Seq<SplinePoint>)
    requires
        positions_rise(points),
    ensures
        positions_ordered(points),
{
    assert forall|i: int, j: int| 0 <= i < j < points.len() implies (#[trigger] points[i]).position.lt_spec(
        (#[trigger] points[j]).position,
    ) by {
        lemma_rise_between(points, i, j);
    }
}

proof fn lemma_rise_between(points: Seq<SplinePoint>, i: int, j: int)
    requires
        positions_rise(points),
        0 <= i < j < points.len(),
    ensures
        points[i].position.lt_spec(points[j].position),
    decreases j - i,
{
    if j > i + 1 {
        lemma_rise_between(points, i, j - 1);
        assert(points[j - 1].position.lt_spec(points[j - 1 + 1].position));
    } else {
        assert(points[i].position.lt_spec(points[i + 1].position));
    }
}

/// Checks a set of points as the nodes of a spline with tables of `rows`
/// rows and `cols` columns.
pub fn check_points(points: &Vec<SplinePoint>, rows: usize, cols: usize) -> (r: Result<(), Error>)
    ensures
        r == match points_fault(points@, rows as int, cols as int) {
            Some(e) => Err::<(), Error>(e),
            None => Ok(()),
        },
{
    let count: usize = points.len();
    if count < 2 {
        return Err(Error::TooFewPoints);
    }
    let mut k: usize = 0;
    while k < count
        invariant
            count == points@.len(),
            count >= 2,
            k <= count,
            forall|a: int| 0 <= a < k ==> (#[trigger] points@[a]).fits(rows as int, cols as int),
        decreases count - k,
    {
        if !points[k].has_shape(rows, cols) {
            proof {
                assert(!points@[k as int].fits(rows as int, cols as int));
            }
            return Err(Error::PointShapeMismatch);
        }
        k += 1;
    }
    if !points[0].position.is_finite() {
        return Err(Error::PointsNotSorted);
    }
    let mut k: usize = 1;
    while k < count
        invariant
            count == points@.len(),
            count >= 2,
            1 <= k <= count,
            shapes_fit(points@, rows as int, cols as int),
            forall|a: int| 0 <= a < k ==> (#[trigger] points@[a]).position.finite(),
            forall|a: int|
                0 <= a < k - 1 ==> (#[trigger] points@[a]).position.lt_spec(points@[a + 1].position),
        decreases count - k,
    {
        if !points[k].position.is_finite() || !points[k - 1].position.lt(points[k].position) {
            proof {
                if points@[k as int].position.finite() {
                    assert(!points@[k - 1].position.lt_spec(points@[k - 1 + 1].position));
                }
            }
            return Err(Error::PointsNotSorted);
        }
        k += 1;
    }
    Ok(())
}

/// Where a distance falls among the nodes of a spline.
#[derive(Clone, Copy, Debug, PartialEq, Eq, Structural)]
pub enum Placement {
    /// The distance is not a number.
    Undefined,
    /// The distance is below the first node.
    Below,
    /// The distance is at or above the node with this index and below the
    /// next, or it is the last node and this is the index of the node
    /// before it.
    Within(usize),
    /// The distance is above the last node.
    Above,
}

/// Whether `placement` is where `distance` falls among the nodes.
pub open spec fn placed(points: Seq<SplinePoint>, distance: Real, placement: Placement) -> bool {
    match placement {
        Placement::Undefined => distance.nan(),
        Placement::Below => distance.lt_spec(points[0].position),
        Placement::Above => points[points.len() - 1].position.lt_spec(distance),
        Placement::Within(k) => {
            &&& 0 <= k < points.len() - 1
            &&& points[k as int].position.le_spec(distance)
            &&& distance.lt_spec(points[k + 1].position) || (k == points.len() - 2 && distance.same(
                points[k + 1].position,
            ))
        },
    }
}

/// A distance falls at one place only.
pub proof fn lemma_placement_is_unique(
    points: Seq<SplinePoint>,
    distance: Real,
    p: Placement,
    q: Placement,
)
    requires
        points.len() >= 2,
        positions_rise(points),
        placed(points, distance, p),
        placed(points, distance, q),
    ensures
        p == q,
{
    lemma_rising_positions_are_ordered(points);
    let last = points.len() - 1;
    assert(points[0].position.lt_spec(points[last].position));
    match (p, q) {
        (Placement::Within(k), Placement::Within(l)) => {
            if k < l {
                assert(points[k + 1].position.le_spec(points[l as int].position)) by {
                    if k + 1 < l {
                        assert(points[k + 1].position.lt_spec(points[l as int].position));
                    }
                }
                assert(points[l as int].position.lt_spec(points[last].position) || l == last);
            } else if l < k {
                assert(points[l + 1].position.le_spec(points[k as int].position)) by {
                    if l + 1 < k {
                        assert(points[l + 1].position.lt_spec(points[k as int].position));
                    }
                }
            }
        },
        (Placement::Within(k), Placement::Below) => {
            assert(k == 0 || points[0].position.lt_spec(points[k as int].position));
        },
        (Placement::Below, Placement::Within(k)) => {
            assert(k == 0 || points[0].position.lt_spec(points[k as int].position));
        },
        (Placement::Within(k), Placement::Above) => {
            assert(k + 1 == last || points[k + 1].position.lt_spec(points[last].position));
        },
        (Placement::Above, Placement::Within(k)) => {
            assert(k + 1 == last || points[k + 1].position.lt_spec(points[last].position));
        },
        _ => {},
    }
}

/// Finds where `distance` falls among the nodes, by halving the range of
/// nodes that it can lie in.
pub fn locate(points: &Vec<SplinePoint>, distance: Real) -> (placement: Placement)
    requires
        points@.len() >= 2,
        positions_rise(points@),
    ensures
        placed(points@, distance, placement),
{
    let last: usize = points.len() - 1;
    if distance.is_nan() {
        return Placement::Undefined;
    }
    if distance.lt(points[0].position) {
        return Placement::Below;
    }
    if points[last].position.lt(distance) {
        return Placement::Above;
    }
    if !distance.lt(points[last].position) {
        return Placement::Within(last - 1);
    }
    let mut low: usize = 0;
    let mut high: usize = last;
    while high - low > 1
        invariant
            0 <= low < high <= last,
            last == points@.len() - 1,
            !distance.nan(),
            positions_rise(points@),
            points@[low as int].position.le_spec(distance),
            distance.lt_spec(points@[high as int].position),
        decreases high - low,
    {
        let middle: usize = low + (high - low) / 2;
        if distance.lt(points[middle].position) {
            high = middle;
        } else {
            low = middle;
        }
    }
    Placement::Within(low)
}

/// The nodes of a splined radial integral: points at strictly rising, finite
/// distances, each with a table of values and a table of gradients of
/// `max_angular + 1` rows and `max_radial` columns.
///
/// Between two neighbouring nodes the integral is the cubic that has the
/// values and gradients of the two nodes at their distances.
#[derive(Debug)]
pub struct SoapRadialIntegralSpline {
    parameters: SoapRadialIntegralSplineParameters,
    points: Vec<SplinePoint>,
}

impl SoapRadialIntegralSpline {
    /// The parameters of the spline.
    pub closed spec fn parameters_spec(&self) -> SoapRadialIntegralSplineParameters {
        self.parameters
    }

    /// The nodes of the spline, in order.
    pub closed spec fn nodes(&self) -> Seq<SplinePoint> {
        self.points@
    }

    /// The invariant of a spline: valid parameters and nodes.
    pub open spec fn wf(&self) -> bool {
        &&& self.parameters_spec().fault() is None
        &&& points_fault(
            self.nodes(),
            self.parameters_spec().max_angular + 1,
            self.parameters_spec().max_radial as int,
        ) is None
    }

    #[verifier::type_invariant]
    spec fn inv(&self) -> bool {
        self.wf()
    }

    /// What is wrong with the parameters or the points of a tabulated
    /// spline, if anything; a fault of the parameters comes first.
    pub open spec fn tabulated_fault(
        parameters: SoapRadialIntegralSplineParameters,
        points: Seq<SplinePoint>,
    ) -> Option<Error> {
        if parameters.fault() is Some {
            parameters.fault()
        } else {
            points_fault(points, parameters.max_angular + 1, parameters.max_radial as int)
        }
    }

    /// The spline with the given points as its nodes, as they are: nothing
    /// is added between them.
    pub fn from_tabulated(parameters: SoapRadialIntegralSplineParameters, points: Vec<SplinePoint>) -> (r:
        Result<SoapRadialIntegralSpline, Error>)
        ensures
            match r {
                Ok(spline) => {
                    &&& Self::tabulated_fault(parameters, points@) is None
                    &&& spline.wf()
                    &&& spline.parameters_spec() == parameters
                    &&& spline.nodes() == points@
                },
                Err(e) => Self::tabulated_fault(parameters, points@) == Some(e),
            },
    {
        match parameters.validate() {
            Err(e) => {
                return Err(e);
            },
            Ok(()) => {},
        }
        proof {
            lemma_rows_are_bounded(parameters.max_angular + 1, parameters.max_radial as int);
        }
        match check_points(&points, parameters.max_angular + 1, parameters.max_radial) {
            Err(e) => {
                return Err(e);
            },
            Ok(()) => {},
        }
        Ok(SoapRadialIntegralSpline { parameters, points })
    }

    /// The parameters of the spline.
    pub fn parameters(&self) -> (parameters: SoapRadialIntegralSplineParameters)
        ensures
            parameters == self.parameters_spec(),
            self.wf(),
    {
        proof {
            use_type_invariant(self);
        }
        self.parameters
    }

    /// The nodes of the spline, in order.
    pub fn points(&self) -> (points: &Vec<SplinePoint>)
        ensures
            points@ == self.nodes(),
            self.wf(),
    {
        proof {
            use_type_invariant(self);
        }
        &self.points
    }

    /// The number of nodes, two at least.
    pub fn len(&self) -> (n: usize)
        ensures
            n == self.nodes().len(),
            n >= 2,
    {
        proof {
            use_type_invariant(self);
        }
        self.points.len()
    }

    /// Where `distance` falls among the nodes.
    ///
    /// A distance between the first and the last node has one interval of
    /// neighbouring nodes that holds it. One outside them is reported as
    /// below or above, for the caller to use the first or the last node in
    /// its place: the spline is never continued beyond its nodes.
    pub fn locate(&self, distance: Real) -> (placement: Placement)
        ensures
            self.wf(),
            placed(self.nodes(), distance, placement),
    {
        proof {
            use_type_invariant(self);
        }
        locate(&self.points, distance)
    }
}

} // verus!
