//! The data source that the pair enumerator works on: positions, species,
//! a unit cell, and the pair list of the last cutoff asked for.

use vstd::prelude::*;
use crate::geometry::{Pair, Separation, UnitCell, Vector3D};
use crate::neighbors::{
    measures_all,
    selected_pairs,
    strictly_ordered,
    touching,
    CrappyNeighborsList,
};
use crate::scalar::Real;

verus! {

/// What any source of atomic data provides.
///
/// The pair list is computed on demand and kept: `compute_neighbors` fills
/// or refreshes it, `pairs` and `pairs_containing` read the list of the
/// cutoff asked for last.
pub trait System {
    /// The positions of the atoms, in order.
    spec fn positions_spec(&self) -> Seq<Vector3D>;

    /// The species of the atoms, in the order of the positions.
    spec fn species_spec(&self) -> Seq<usize>;

    /// The unit cell.
    spec fn cell_spec(&self) -> UnitCell;

    /// Whether a pair list is held.
    spec fn has_neighbors(&self) -> bool;

    /// The cutoff of the pair list that is held.
    spec fn neighbors_cutoff(&self) -> Real;

    /// The pairs of the list that is held.
    spec fn pairs_spec(&self) -> Seq<Pair>;

    /// The invariant of the source.
    spec fn wf(&self) -> bool;

    /// The number of atoms.
    fn size(&self) -> (n: usize)
        requires
            self.wf(),
        ensures
            n == self.positions_spec().len(),
            n == self.species_spec().len(),
    ;

    /// The positions of the atoms.
    fn positions(&self) -> (positions: &[Vector3D])
        requires
            self.wf(),
        ensures
            positions@ == self.positions_spec(),
    ;

    /// The species of the atoms.
    fn species(&self) -> (species: &[usize])
        requires
            self.wf(),
        ensures
            species@ == self.species_spec(),
    ;

    /// The unit cell.
    fn cell(&self) -> (cell: UnitCell)
        requires
            self.wf(),
        ensures
            cell == self.cell_spec(),
    ;

    /// Makes the pair list of `cutoff` the one that is held.
    ///
    /// A list that is held for an equal cutoff stays as it is and nothing
    /// is measured. Otherwise the list is built anew, with `measure` giving
    /// the separation of two positions in the cell and `cutoff2` the square
    /// of the cutoff.
    fn compute_neighbors<F: Fn(UnitCell, Vector3D, Vector3D) -> Separation>(
        &mut self,
        cutoff: Real,
        cutoff2: Real,
        measure: F,
    )
        requires
            old(self).wf(),
            forall|i: int, j: int|
                0 <= i < j < old(self).positions_spec().len() ==> call_requires(
                    measure,
                    (
                        old(self).cell_spec(),
                        #[trigger] old(self).positions_spec()[i],
                        #[trigger] old(self).positions_spec()[j],
                    ),
                ),
        ensures
            final(self).wf(),
            final(self).positions_spec() == old(self).positions_spec(),
            final(self).species_spec() == old(self).species_spec(),
            final(self).cell_spec() == old(self).cell_spec(),
            final(self).has_neighbors(),
            !cutoff.nan() ==> final(self).neighbors_cutoff().same(cutoff),
            old(self).has_neighbors() && old(self).neighbors_cutoff().same(cutoff) ==> {
                &&& final(self).neighbors_cutoff() == old(self).neighbors_cutoff()
                &&& final(self).pairs_spec() == old(self).pairs_spec()
            },
            !(old(self).has_neighbors() && old(self).neighbors_cutoff().same(cutoff)) ==> {
                &&& final(self).neighbors_cutoff() == cutoff
                &&& !cutoff.positive() ==> final(self).pairs_spec().len() == 0
                &&& cutoff.positive() ==> exists|measured: Map<(int, int), Separation>|
                    measures_all(
                        measure,
                        old(self).cell_spec(),
                        old(self).positions_spec(),
                        measured,
                    ) && final(self).pairs_spec() == selected_pairs(
                        measured,
                        cutoff,
                        cutoff2,
                        old(self).positions_spec().len() as int,
                    )
            },
    ;

    /// All pairs of the list that is held, in strictly rising order by
    /// first atom, then second.
    fn pairs(&self) -> (pairs: &[Pair])
        requires
            self.wf(),
            self.has_neighbors(),
        ensures
            pairs@ == self.pairs_spec(),
            strictly_ordered(pairs@),
            forall|k: int|
                0 <= k < pairs@.len() ==> (#[trigger] pairs@[k]).first < pairs@[k].second
                    < self.positions_spec().len(),
    ;

    /// The pairs of the list that atom `center` is part of, as first or as
    /// second atom, in the order of the list.
    fn pairs_containing(&self, center: usize) -> (pairs: &[Pair])
        requires
            self.wf(),
            self.has_neighbors(),
            center < self.positions_spec().len(),
        ensures
            pairs@ == self.pairs_spec().filter(touching(center as int)),
    ;
}

/// A system that holds its atoms itself.
#[derive(Clone, Debug)]
pub struct SimpleSystem {
    cell: UnitCell,
    species: Vec<usize>,
    positions: Vec<Vector3D>,
    neighbors: Option<CrappyNeighborsList>,
}

impl SimpleSystem {
    /// Whether a request for the pair list of `cutoff` is answered by the
    /// list that is held, without building one.
    pub open spec fn reuses(&self, cutoff: Real) -> bool {
        self.has_neighbors() && self.neighbors_cutoff().same(cutoff)
    }

    /// What every request for the pair list of `cutoff` does to a system:
    /// the atoms and the cell stay, a list is held afterwards, for a cutoff
    /// equal to the one asked for where that is a number, and where the
    /// list held before answers the request nothing changes at all.
    pub open spec fn answered_by(&self, cutoff: Real, after: SimpleSystem) -> bool {
        &&& after.wf()
        &&& after.positions_spec() == self.positions_spec()
        &&& after.species_spec() == self.species_spec()
        &&& after.cell_spec() == self.cell_spec()
        &&& after.has_neighbors()
        &&& !cutoff.nan() ==> after.neighbors_cutoff().same(cutoff)
        &&& self.reuses(cutoff) ==> after == *self
    }

    /// Create a new empty system with the given unit cell
    pub fn new(cell: UnitCell) -> (system: SimpleSystem)
        ensures
            system.wf(),
            system.cell_spec() == cell,
            system.species_spec().len() == 0,
            system.positions_spec().len() == 0,
            !system.has_neighbors(),
    {
        SimpleSystem { cell: cell, species: Vec::new(), positions: Vec::new(), neighbors: None }
    }

    /// Add an atom with the given species and position to this system.
    /// A pair list that is held is dropped: it was built for fewer atoms.
    pub fn add_atom(&mut self, species: usize, position: Vector3D)
        requires
            old(self).wf(),
        ensures
            final(self).wf(),
            final(self).cell_spec() == old(self).cell_spec(),
            final(self).species_spec() == old(self).species_spec().push(species),
            final(self).positions_spec() == old(self).positions_spec().push(position),
            !final(self).has_neighbors(),
    {
        self.species.push(species);
        self.positions.push(position);
        self.neighbors = None;
    }

    /// Moves atom `index` to `position`. A pair list that is held is
    /// dropped: it was built for the positions before.
    pub fn set_position(&mut self, index: usize, position: Vector3D)
        requires
            old(self).wf(),
            index < old(self).positions_spec().len(),
        ensures
            final(self).wf(),
            final(self).cell_spec() == old(self).cell_spec(),
            final(self).species_spec() == old(self).species_spec(),
            final(self).positions_spec() == old(self).positions_spec().update(index as int, position),
            !final(self).has_neighbors(),
    {
        self.neighbors = None;
        self.positions[index] = position;
    }

    /// The system with the atoms and the cell of another one, and no pair
    /// list.
    pub fn from_system<S: System>(system: &S) -> (new: SimpleSystem)
        requires
            system.wf(),
        ensures
            new.wf(),
            new.cell_spec() == system.cell_spec(),
            new.species_spec() == system.species_spec(),
            new.positions_spec() == system.positions_spec(),
            !new.has_neighbors(),
    {
        let mut new = SimpleSystem::new(system.cell());
        let species = system.species();
        let positions = system.positions();
        let natoms: usize = system.size();
        let mut i: usize = 0;
        while i < natoms
            invariant
                natoms == species@.len(),
                natoms == positions@.len(),
                i <= natoms,
                new.wf(),
                new.cell_spec() == system.cell_spec(),
                new.species_spec() == species@.take(i as int),
                new.positions_spec() == positions@.take(i as int),
                !new.has_neighbors(),
            decreases natoms - i,
        {
            new.add_atom(species[i], positions[i]);
            proof {
                assert(species@.take(i + 1) =~= species@.take(i as int).push(species@[i as int]));
                assert(positions@.take(i + 1) =~= positions@.take(i as int).push(
                    positions@[i as int],
                ));
            }
            i += 1;
        }
        proof {
            assert(species@.take(natoms as int) =~= species@);
            assert(positions@.take(natoms as int) =~= positions@);
        }
        new
    }
}

impl System for SimpleSystem {
    closed spec fn positions_spec(&self) -> Seq<Vector3D> {
        self.positions@
    }

    closed spec fn species_spec(&self) -> Seq<usize> {
        self.species@
    }

    closed spec fn cell_spec(&self) -> UnitCell {
        self.cell
    }

    closed spec fn has_neighbors(&self) -> bool {
        self.neighbors is Some
    }

    closed spec fn neighbors_cutoff(&self) -> Real {
        self.neighbors->Some_0.cutoff_spec()
    }

    closed spec fn pairs_spec(&self) -> Seq<Pair> {
        self.neighbors->Some_0.pairs_spec()
    }

    closed spec fn wf(&self) -> bool {
        &&& self.species@.len() == self.positions@.len()
        &&& self.neighbors matches Some(list) ==> list.wf() && list.natoms() == self.positions@.len()
    }

    fn size(&self) -> (n: usize) {
        self.species.len()
    }

    fn positions(&self) -> (positions: &[Vector3D]) {
        self.positions.as_slice()
    }

    fn species(&self) -> (species: &[usize]) {
        self.species.as_slice()
    }

    fn cell(&self) -> (cell: UnitCell) {
        self.cell
    }

    fn compute_neighbors<F: Fn(UnitCell, Vector3D, Vector3D) -> Separation>(
        &mut self,
        cutoff: Real,
        cutoff2: Real,
        measure: F,
    )
        ensures
            old(self).answered_by(cutoff, *final(self)),
    {
        // re-use already computed NL is possible
        if let Some(ref nl) = self.neighbors {
            if nl.cutoff() == cutoff {
                return ;
            }
        }
        let positions = self.positions.as_slice();
        proof {
            assert forall|i: int, j: int| 0 <= i < j < positions@.len() implies call_requires(
                measure,
                (self.cell, #[trigger] positions@[i], #[trigger] positions@[j]),
            ) by {
                assert(positions@[i] == old(self).positions_spec()[i]);
                assert(positions@[j] == old(self).positions_spec()[j]);
            }
        }
        let list = CrappyNeighborsList::new(positions, self.cell, cutoff, cutoff2, measure);
        self.neighbors = Some(list);
    }

    fn pairs(&self) -> (pairs: &[Pair]) {
        self.neighbors.as_ref().unwrap().pairs()
    }

    fn pairs_containing(&self, center: usize) -> (pairs: &[Pair]) {
        self.neighbors.as_ref().unwrap().pairs_containing(center)
    }
}

/// Asking twice for the same cutoff builds once.
///
/// Take a system after a request for the pair list of a cutoff that is a
/// number, and the same system after a second request for that cutoff. The
/// second request has changed nothing: the list that the first one left
/// answers it, pair for pair and bit for bit.
pub proof fn lemma_second_request_changes_nothing(
    before: SimpleSystem,
    after_first: SimpleSystem,
    after_second: SimpleSystem,
    cutoff: Real,
)
    requires
        !cutoff.nan(),
        before.answered_by(cutoff, after_first),
        after_first.answered_by(cutoff, after_second),
    ensures
        after_first.reuses(cutoff),
        after_second == after_first,
        after_second.pairs_spec() == after_first.pairs_spec(),
{
}

} // verus!
