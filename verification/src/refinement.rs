//! Building a spline to a prescribed accuracy, by halving the intervals in
//! which it is not accurate enough.
//!
//! The intervals between neighbouring nodes are tested from the first to
//! the last. For the interval under test the caller evaluates the reference
//! at the midpoint and reports how far the spline is from it there. An
//! interval within the accuracy passes; one that is not gets the midpoint as
//! a new node, and its two halves are tested in turn. No interval is halved
//! more often than the depth allows.

use vstd::prelude::*;
use crate::error::Error;
use crate::radial_integral::accuracy_valid;
use crate::scalar::Real;
use crate::spline::{
    check_points,
    lemma_rows_are_bounded,
    points_fault,
    SoapRadialIntegralSpline,
    SoapRadialIntegralSplineParameters,
    SplinePoint,
};

verus! {

/// The reports that an interval can still take before it has passed or
/// failed: one for itself and, while it can be halved, those of its two
/// halves.
pub open spec fn cost(depth: int, max_depth: int) -> nat
    decreases max_depth - depth,
{
    if depth >= max_depth {
        1
    } else {
        1 + 2 * cost(depth + 1, max_depth)
    }
}

/// The sum of the costs of intervals of the given depths.
pub open spec fn total_cost(depths: Seq<usize>, max_depth: int) -> nat
    decreases depths.len(),
{
    if depths.len() == 0 {
        0
    } else {
        cost(depths[0] as int, max_depth) + total_cost(depths.drop_first(), max_depth)
    }
}

/// A spline under refinement.
#[derive(Debug)]
pub struct SplineRefinement {
    parameters: SoapRadialIntegralSplineParameters,
    accuracy: Real,
    max_depth: usize,
    points: Vec<SplinePoint>,
    depths: Vec<usize>,
    cursor: usize,
}

impl SplineRefinement {
    /// The parameters of the spline.
    pub closed spec fn parameters_spec(&self) -> SoapRadialIntegralSplineParameters {
        self.parameters
    }

    /// The error that the spline may have at the midpoint of an interval.
    pub closed spec fn accuracy_spec(&self) -> Real {
        self.accuracy
    }

    /// How often an interval of the first nodes may be halved.
    pub closed spec fn max_depth_spec(&self) -> usize {
        self.max_depth
    }

    /// The nodes so far, in order.
    pub closed spec fn nodes(&self) -> Seq<SplinePoint> {
        self.points@
    }

    /// For every interval between neighbouring nodes, how often an interval
    /// of the first nodes was halved to get it.
    pub closed spec fn depths_spec(&self) -> Seq<usize> {
        self.depths@
    }

    /// The index of the interval under test; the intervals before it have
    /// passed.
    pub closed spec fn cursor_spec(&self) -> int {
        self.cursor as int
    }

    /// The invariant of a refinement.
    pub open spec fn wf(&self) -> bool {
        &&& self.parameters_spec().fault() is None
        &&& accuracy_valid(self.accuracy_spec())
        &&& points_fault(
            self.nodes(),
            self.parameters_spec().max_angular + 1,
            self.parameters_spec().max_radial as int,
        ) is None
        &&& self.depths_spec().len() + 1 == self.nodes().len()
        &&& 0 <= self.cursor_spec() <= self.depths_spec().len()
        &&& forall|k: int|
            0 <= k < self.depths_spec().len() ==> #[trigger] self.depths_spec()[k]
                <= self.max_depth_spec()
    }

    /// Whether every interval has passed.
    pub open spec fn finished(&self) -> bool {
        self.cursor_spec() == self.depths_spec().len()
    }

    /// A bound on the reports that the refinement can still take.
    pub open spec fn remaining(&self) -> nat {
        total_cost(self.depths_spec().skip(self.cursor_spec()), self.max_depth_spec() as int)
    }

    /// What is wrong with the start of a refinement, if anything: a fault
    /// of the parameters comes first, then one of the accuracy, then one of
    /// the points.
    pub open spec fn start_fault(
        parameters: SoapRadialIntegralSplineParameters,
        accuracy: Real,
        points: Seq<SplinePoint>,
    ) -> Option<Error> {
        if parameters.fault() is Some {
            parameters.fault()
        } else if !accuracy_valid(accuracy) {
            Some(Error::InvalidAccuracy)
        } else {
            points_fault(points, parameters.max_angular + 1, parameters.max_radial as int)
        }
    }

    /// Starts a refinement from the given nodes, none of whose intervals
    /// has been halved or tested.
    pub fn start(
        parameters: SoapRadialIntegralSplineParameters,
        accuracy: Real,
        max_depth: usize,
        points: Vec<SplinePoint>,
    ) -> (r: Result<SplineRefinement, Error>)
        ensures
            match r {
                Ok(refinement) => {
                    &&& Self::start_fault(parameters, accuracy, points@) is None
                    &&& refinement.wf()
                    &&& refinement.parameters_spec() == parameters
                    &&& refinement.accuracy_spec() == accuracy
                    &&& refinement.max_depth_spec() == max_depth
                    &&& refinement.nodes() == points@
                    &&& refinement.cursor_spec() == 0
                    &&& forall|k: int|
                        0 <= k < refinement.depths_spec().len()
                            ==> #[trigger] refinement.depths_spec()[k] == 0
                },
                Err(e) => Self::start_fault(parameters, accuracy, points@) == Some(e),
            },
    {
        match parameters.validate() {
            Err(e) => {
                return Err(e);
            },
            Ok(()) => {},
        }
        if accuracy.is_nan() || !Real::zero().le(accuracy) {
            return Err(Error::InvalidAccuracy);
        }
        proof {
            lemma_rows_are_bounded(parameters.max_angular + 1, parameters.max_radial as int);
        }
        match check_points(&points, parameters.max_angular + 1, parameters.max_radial) {
            Err(e) => {
                return Err(e);
            },
            Ok(()) => {},
        }
        let intervals: usize = points.len() - 1;
        let mut depths: Vec<usize> = Vec::new();
        let mut k: usize = 0;
        while k < intervals
            invariant
                k <= intervals,
                depths@.len() == k,
                forall|a: int| 0 <= a < k ==> #[trigger] depths@[a] == 0,
            decreases intervals - k,
        {
            depths.push(0);
            k += 1;
        }
        Ok(SplineRefinement { parameters, accuracy, max_depth, points, depths, cursor: 0 })
    }

    /// Whether every interval has passed.
    pub fn is_finished(&self) -> (r: bool)
        requires
            self.wf(),
        ensures
            r == self.finished(),
    {
        self.cursor == self.depths.len()
    }

    /// The two nodes of the interval under test, if there is one left.
    pub fn pending(&self) -> (r: Option<(&SplinePoint, &SplinePoint)>)
        requires
            self.wf(),
        ensures
            r is Some <==> !self.finished(),
            r matches Some((left, right)) ==> *left == self.nodes()[self.cursor_spec()] && *right
                == self.nodes()[self.cursor_spec() + 1],
    {
        if self.cursor < self.depths.len() {
            Some((&self.points[self.cursor], &self.points[self.cursor + 1]))
        } else {
            None
        }
    }

    /// Takes the report on the interval under test: the reference at a
    /// point strictly inside the interval, and the largest error of the
    /// spline against it there in any cell.
    ///
    /// An error within the accuracy passes the interval. A larger one, or
    /// one that is not a number, halves it: the point becomes a node and the
    /// left half is under test next. That fails where the interval has been
    /// halved as often as allowed. Every report that succeeds lowers the
    /// bound on the reports that are left.
    pub fn report(&mut self, midpoint: SplinePoint, error: Real) -> (r: Result<(), Error>)
        requires
            old(self).wf(),
        ensures
            final(self).wf(),
            final(self).parameters_spec() == old(self).parameters_spec(),
            final(self).accuracy_spec() == old(self).accuracy_spec(),
            final(self).max_depth_spec() == old(self).max_depth_spec(),
            r is Err ==> *final(self) == *old(self),
            r is Ok ==> final(self).remaining() < old(self).remaining(),
            r == old(self).verdict(midpoint, error),
            r is Ok && error.le_spec(old(self).accuracy_spec()) ==> {
                &&& final(self).nodes() == old(self).nodes()
                &&& final(self).depths_spec() == old(self).depths_spec()
                &&& final(self).cursor_spec() == old(self).cursor_spec() + 1
            },
            r is Ok && !error.le_spec(old(self).accuracy_spec()) ==> {
                let k = old(self).cursor_spec();
                let depth = (old(self).depths_spec()[k] + 1) as usize;
                &&& final(self).nodes() == old(self).nodes().insert(k + 1, midpoint)
                &&& final(self).depths_spec() == old(self).depths_spec().update(k, depth).insert(
                    k + 1,
                    depth,
                )
                &&& final(self).cursor_spec() == k
            },
    {
        if self.cursor >= self.depths.len() {
            return Err(Error::Internal);
        }
        let k: usize = self.cursor;
        let ghost before = self.depths@;
        let ghost max = self.max_depth as int;
        proof {
            assert(before.skip(k as int).drop_first() =~= before.skip(k + 1));
            lemma_cost_is_positive(before[k as int] as int, max);
        }
        if error.le(self.accuracy) {
            self.cursor = k + 1;
            return Ok(());
        }
        let depth: usize = self.depths[k];
        if depth >= self.max_depth {
            return Err(Error::AccuracyNotReached);
        }
        proof {
            lemma_rows_are_bounded(
                self.parameters.max_angular + 1,
                self.parameters.max_radial as int,
            );
        }
        if !midpoint.has_shape(self.parameters.max_angular + 1, self.parameters.max_radial) {
            return Err(Error::PointShapeMismatch);
        }
        if !(midpoint.position.is_finite() && self.points[k].position.lt(midpoint.position)
            && midpoint.position.lt(self.points[k + 1].position)) {
            return Err(Error::PointsNotSorted);
        }
        let ghost nodes = self.points@;
        self.points.insert(k + 1, midpoint);
        self.depths.set(k, depth + 1);
        self.depths.insert(k + 1, depth + 1);
        proof {
            let after = self.depths@;
            let deeper = (depth + 1) as usize;
            assert(after.skip(k as int).drop_first() =~= after.skip(k + 1));
            assert(after.skip(k + 1).drop_first() =~= before.skip(k + 1));
            assert(after.skip(k as int)[0] == deeper);
            assert(after.skip(k + 1)[0] == deeper);
            assert(cost(depth as int, max) == 1 + 2 * cost(depth + 1, max));
            assert(before.skip(k as int)[0] == depth);
            assert(total_cost(before.skip(k as int), max) == cost(depth as int, max) + total_cost(
                before.skip(k + 1),
                max,
            ));
            assert(total_cost(after.skip(k + 1), max) == cost(deeper as int, max) + total_cost(
                before.skip(k + 1),
                max,
            ));
            assert(total_cost(after.skip(k as int), max) == cost(deeper as int, max) + total_cost(
                after.skip(k + 1),
                max,
            ));
            let grown = self.points@;
            assert forall|a: int| 0 <= a < grown.len() - 1 implies (#[trigger] grown[a]).position.lt_spec(
                grown[a + 1].position,
            ) by {
                if a < k {
                    assert(grown[a] == nodes[a] && grown[a + 1] == nodes[a + 1]);
                } else if a > k + 1 {
                    assert(grown[a] == nodes[a - 1] && grown[a + 1] == nodes[a - 1 + 1]);
                }
            }
            assert forall|a: int| 0 <= a < grown.len() implies (#[trigger] grown[a]).position.finite()
                && grown[a].fits(
                self.parameters.max_angular + 1,
                self.parameters.max_radial as int,
            ) by {
                if a <= k {
                    assert(grown[a] == nodes[a]);
                } else if a > k + 1 {
                    assert(grown[a] == nodes[a - 1]);
                }
            }
        }
        Ok(())
    }

    /// What a report on the interval under test comes to: success, or the
    /// error that it fails with.
    pub open spec fn verdict(&self, midpoint: SplinePoint, error: Real) -> Result<(), Error> {
        let k = self.cursor_spec();
        if self.finished() {
            Err(Error::Internal)
        } else if error.le_spec(self.accuracy_spec()) {
            Ok(())
        } else if self.depths_spec()[k] >= self.max_depth_spec() {
            Err(Error::AccuracyNotReached)
        } else if !midpoint.fits(
            self.parameters_spec().max_angular + 1,
            self.parameters_spec().max_radial as int,
        ) {
            Err(Error::PointShapeMismatch)
        } else if !(midpoint.position.finite() && self.nodes()[k].position.lt_spec(midpoint.position)
            && midpoint.position.lt_spec(self.nodes()[k + 1].position)) {
            Err(Error::PointsNotSorted)
        } else {
            Ok(())
        }
    }

    /// The spline with the nodes of the refinement, once every interval
    /// has passed; before that, nothing.
    pub fn finish(self) -> (r: Option<SoapRadialIntegralSpline>)
        requires
            self.wf(),
        ensures
            r is Some <==> self.finished(),
            r matches Some(spline) ==> spline.wf() && spline.parameters_spec()
                == self.parameters_spec() && spline.nodes() == self.nodes(),
    {
        if self.cursor != self.depths.len() {
            return None;
        }
        match SoapRadialIntegralSpline::from_tabulated(self.parameters, self.points) {
            Ok(spline) => Some(spline),
            Err(_) => None,
        }
    }
}

/// Every interval costs one report at least.
pub proof fn lemma_cost_is_positive(depth: int, max_depth: int)
    ensures
        cost(depth, max_depth) >= 1,
{
}

/// A refinement ends: the bound on the reports that are left is a natural
/// number that every successful report lowers, and it is zero exactly when
/// every interval has passed.
pub proof fn lemma_remaining_is_zero_when_finished(refinement: SplineRefinement)
    requires
        refinement.wf(),
    ensures
        refinement.finished() <==> refinement.remaining() == 0,
{
    let rest = refinement.depths_spec().skip(refinement.cursor_spec());
    if !refinement.finished() {
        lemma_cost_is_positive(rest[0] as int, refinement.max_depth_spec() as int);
    }
}

} // verus!
