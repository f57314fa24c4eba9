//! The pair enumerator: all pairs of atoms closer than a cutoff, found by
//! going through every pair of indices once.
//!
//! The geometry of two positions (their minimum-image displacement and its
//! norm) is measured by the caller's function; which pairs are kept, in what
//! order, and under which atoms they are filed is decided here.

use vstd::prelude::*;
use crate::geometry::{Pair, Separation, UnitCell, Vector3D};
use crate::scalar::Real;

verus! {

/// Whether a measured separation lies inside the cutoff: the cutoff is a
/// number above zero and the squared distance is below the squared cutoff.
pub open spec fn within_cutoff(sep: Separation, cutoff: Real, cutoff2: Real) -> bool {
    cutoff.positive() && sep.distance2.lt_spec(cutoff2)
}

/// The pair that atoms `first` and `second` make when `sep` was measured
/// from the first to the second.
pub open spec fn pair_from(first: int, second: int, sep: Separation) -> Pair {
    Pair {
        first: first as usize,
        second: second as usize,
        distance: sep.distance,
        vector: sep.vector,
    }
}

/// The pairs that atom `i` makes with the atoms after it and before `end`,
/// by rising second index, given the separation measured for each couple of
/// indices.
pub open spec fn row_pairs(
    measured: Map<(int, int), Separation>,
    cutoff: Real,
    cutoff2: Real,
    i: int,
    end: int,
) -> Seq<Pair>
    decreases end - i,
{
    if end <= i + 1 {
        Seq::empty()
    } else {
        let rest = row_pairs(measured, cutoff, cutoff2, i, end - 1);
        let sep = measured[(i, end - 1)];
        if within_cutoff(sep, cutoff, cutoff2) {
            rest.push(pair_from(i, end - 1, sep))
        } else {
            rest
        }
    }
}

/// The pairs whose first atom is before `end`, among `natoms` atoms.
pub open spec fn pairs_upto(
    measured: Map<(int, int), Separation>,
    cutoff: Real,
    cutoff2: Real,
    natoms: int,
    end: int,
) -> Seq<Pair>
    decreases end,
{
    if end <= 0 {
        Seq::empty()
    } else {
        pairs_upto(measured, cutoff, cutoff2, natoms, end - 1) + row_pairs(
            measured,
            cutoff,
            cutoff2,
            end - 1,
            natoms,
        )
    }
}

/// The pair list of `natoms` atoms: for every `i < j` whose measured
/// separation lies inside the cutoff the pair `(i, j)`, ordered by `i`, then
/// by `j`.
pub open spec fn selected_pairs(
    measured: Map<(int, int), Separation>,
    cutoff: Real,
    cutoff2: Real,
    natoms: int,
) -> Seq<Pair> {
    pairs_upto(measured, cutoff, cutoff2, natoms, natoms)
}

/// `measured` holds, for every couple `i < j` of the positions, a
/// separation that `measure` can return for them in this cell.
pub open spec fn measures_all<F: Fn(UnitCell, Vector3D, Vector3D) -> Separation>(
    measure: F,
    cell: UnitCell,
    positions: Seq<Vector3D>,
    measured: Map<(int, int), Separation>,
) -> bool {
    forall|i: int, j: int|
        0 <= i < j < positions.len() ==> call_ensures(
            measure,
            (cell, positions[i], positions[j]),
            #[trigger] measured[(i, j)],
        )
}

/// The predicate "has `center` as one of its atoms".
pub open spec fn touching(center: int) -> spec_fn(Pair) -> bool {
    |p: Pair| p.touches(center)
}

/// Whether `pairs` are in strictly rising order by first atom, then second.
pub open spec fn strictly_ordered(pairs: Seq<Pair>) -> bool {
    forall|k: int, l: int| 0 <= k < l < pairs.len() ==> pairs[k].before(pairs[l])
}

/// Whether `pairs` holds a pair of atoms `first` and `second`.
pub open spec fn has_pair(pairs: Seq<Pair>, first: int, second: int) -> bool {
    exists|k: int| 0 <= k < pairs.len() && pairs[k].first == first && pairs[k].second == second
}

/// Decides on one couple of atoms: the pair, if the separation measured
/// between them lies inside the cutoff.
pub fn select_pair(first: usize, second: usize, sep: Separation, cutoff: Real, cutoff2: Real) -> (r:
    Option<Pair>)
    ensures
        r == if within_cutoff(sep, cutoff, cutoff2) {
            Some(pair_from(first as int, second as int, sep))
        } else {
            None
        },
{
    if cutoff.is_positive() && sep.distance2.lt(cutoff2) {
        Some(Pair { first, second, distance: sep.distance, vector: sep.vector })
    } else {
        None
    }
}

/// A row depends only on what was measured for its own couples.
pub proof fn lemma_row_frame(
    m1: Map<(int, int), Separation>,
    m2: Map<(int, int), Separation>,
    cutoff: Real,
    cutoff2: Real,
    i: int,
    end: int,
)
    requires
        forall|j: int| i < j < end ==> #[trigger] m1[(i, j)] == m2[(i, j)],
    ensures
        row_pairs(m1, cutoff, cutoff2, i, end) == row_pairs(m2, cutoff, cutoff2, i, end),
    decreases end - i,
{
    if end > i + 1 {
        lemma_row_frame(m1, m2, cutoff, cutoff2, i, end - 1);
        assert(m1[(i, end - 1)] == m2[(i, end - 1)]);
    }
}

/// The rows before `end` depend only on what was measured for their
/// couples.
pub proof fn lemma_upto_frame(
    m1: Map<(int, int), Separation>,
    m2: Map<(int, int), Separation>,
    cutoff: Real,
    cutoff2: Real,
    natoms: int,
    end: int,
)
    requires
        forall|i: int, j: int| 0 <= i < end && i < j < natoms ==> #[trigger] m1[(i, j)] == m2[(i, j)],
    ensures
        pairs_upto(m1, cutoff, cutoff2, natoms, end) == pairs_upto(m2, cutoff, cutoff2, natoms, end),
    decreases end,
{
    if end > 0 {
        lemma_upto_frame(m1, m2, cutoff, cutoff2, natoms, end - 1);
        lemma_row_frame(m1, m2, cutoff, cutoff2, end - 1, natoms);
    }
}

/// What a row holds: exactly the couples `(i, j)` inside the cutoff, each
/// with the distance and vector measured for it, by rising `j`.
pub proof fn lemma_row_pairs(
    measured: Map<(int, int), Separation>,
    cutoff: Real,
    cutoff2: Real,
    i: int,
    end: int,
)
    requires
        0 <= i,
        end <= usize::MAX + 1,
    ensures
        forall|k: int|
            #![trigger row_pairs(measured, cutoff, cutoff2, i, end)[k]]
            0 <= k < row_pairs(measured, cutoff, cutoff2, i, end).len() ==> {
                let p = row_pairs(measured, cutoff, cutoff2, i, end)[k];
                &&& p.first == i
                &&& i < p.second < end
                &&& within_cutoff(measured[(i, p.second as int)], cutoff, cutoff2)
                &&& p == pair_from(i, p.second as int, measured[(i, p.second as int)])
            },
        forall|k: int, l: int|
            0 <= k < l < row_pairs(measured, cutoff, cutoff2, i, end).len() ==> row_pairs(
                measured,
                cutoff,
                cutoff2,
                i,
                end,
            )[k].second < row_pairs(measured, cutoff, cutoff2, i, end)[l].second,
        forall|j: int|
            i < j < end && within_cutoff(#[trigger] measured[(i, j)], cutoff, cutoff2) ==> row_pairs(
                measured,
                cutoff,
                cutoff2,
                i,
                end,
            ).contains(pair_from(i, j, measured[(i, j)])),
    decreases end - i,
{
    let row = row_pairs(measured, cutoff, cutoff2, i, end);
    if end > i + 1 {
        let rest = row_pairs(measured, cutoff, cutoff2, i, end - 1);
        lemma_row_pairs(measured, cutoff, cutoff2, i, end - 1);
        let sep = measured[(i, end - 1)];
        assert forall|j: int|
            i < j < end && within_cutoff(#[trigger] measured[(i, j)], cutoff, cutoff2) implies row.contains(
            pair_from(i, j, measured[(i, j)]),
        ) by {
            if j == end - 1 {
                assert(row == rest.push(pair_from(i, j, sep)));
                assert(row[rest.len() as int] == pair_from(i, j, sep));
            } else {
                let k = choose|k: int|
                    0 <= k < rest.len() && rest[k] == pair_from(i, j, measured[(i, j)]);
                assert(row[k] == rest[k]);
            }
        }
    }
}

/// What the pair list holds, and in what order.
///
/// Every pair of the list joins a lower index to a higher one below
/// `natoms`, lies inside the cutoff, and carries the distance and vector
/// measured for its couple; the list is in strictly rising order (so no
/// couple occurs twice); and every couple inside the cutoff is in the list.
pub proof fn lemma_selected_pairs(
    measured: Map<(int, int), Separation>,
    cutoff: Real,
    cutoff2: Real,
    natoms: int,
)
    requires
        0 <= natoms <= usize::MAX,
    ensures
        forall|k: int|
            #![trigger selected_pairs(measured, cutoff, cutoff2, natoms)[k]]
            0 <= k < selected_pairs(measured, cutoff, cutoff2, natoms).len() ==> {
                let p = selected_pairs(measured, cutoff, cutoff2, natoms)[k];
                &&& p.first < p.second < natoms
                &&& within_cutoff(measured[(p.first as int, p.second as int)], cutoff, cutoff2)
                &&& p == pair_from(
                    p.first as int,
                    p.second as int,
                    measured[(p.first as int, p.second as int)],
                )
            },
        strictly_ordered(selected_pairs(measured, cutoff, cutoff2, natoms)),
        forall|i: int, j: int|
            0 <= i < j < natoms && within_cutoff(#[trigger] measured[(i, j)], cutoff, cutoff2)
                ==> selected_pairs(measured, cutoff, cutoff2, natoms).contains(
                pair_from(i, j, measured[(i, j)]),
            ),
{
    lemma_pairs_upto(measured, cutoff, cutoff2, natoms, natoms);
}

/// The same, of the rows before `end`.
pub proof fn lemma_pairs_upto(
    measured: Map<(int, int), Separation>,
    cutoff: Real,
    cutoff2: Real,
    natoms: int,
    end: int,
)
    requires
        0 <= end <= natoms <= usize::MAX,
    ensures
        forall|k: int|
            #![trigger pairs_upto(measured, cutoff, cutoff2, natoms, end)[k]]
            0 <= k < pairs_upto(measured, cutoff, cutoff2, natoms, end).len() ==> {
                let p = pairs_upto(measured, cutoff, cutoff2, natoms, end)[k];
                &&& p.first < end
                &&& p.first < p.second < natoms
                &&& within_cutoff(measured[(p.first as int, p.second as int)], cutoff, cutoff2)
                &&& p == pair_from(
                    p.first as int,
                    p.second as int,
                    measured[(p.first as int, p.second as int)],
                )
            },
        strictly_ordered(pairs_upto(measured, cutoff, cutoff2, natoms, end)),
        forall|i: int, j: int|
            0 <= i < end && i < j < natoms && within_cutoff(
                #[trigger] measured[(i, j)],
                cutoff,
                cutoff2,
            ) ==> pairs_upto(measured, cutoff, cutoff2, natoms, end).contains(
                pair_from(i, j, measured[(i, j)]),
            ),
    decreases end,
{
    let all = pairs_upto(measured, cutoff, cutoff2, natoms, end);
    if end > 0 {
        let before = pairs_upto(measured, cutoff, cutoff2, natoms, end - 1);
        let row = row_pairs(measured, cutoff, cutoff2, end - 1, natoms);
        lemma_pairs_upto(measured, cutoff, cutoff2, natoms, end - 1);
        lemma_row_pairs(measured, cutoff, cutoff2, end - 1, natoms);
        assert(all == before + row);
        assert forall|k: int| 0 <= k < all.len() implies {
            let p = #[trigger] all[k];
            &&& p.first < end
            &&& p.first < p.second < natoms
            &&& within_cutoff(measured[(p.first as int, p.second as int)], cutoff, cutoff2)
            &&& p == pair_from(
                p.first as int,
                p.second as int,
                measured[(p.first as int, p.second as int)],
            )
        } by {
            if k < before.len() {
                assert(all[k] == before[k]);
            } else {
                assert(all[k] == row[k - before.len()]);
            }
        }
        assert forall|k: int, l: int| 0 <= k < l < all.len() implies all[k].before(all[l]) by {
            if l < before.len() {
                assert(all[k] == before[k] && all[l] == before[l]);
            } else if k < before.len() {
                assert(all[k] == before[k]);
                assert(all[l] == row[l - before.len()]);
            } else {
                assert(all[k] == row[k - before.len()]);
                assert(all[l] == row[l - before.len()]);
            }
        }
        assert forall|i: int, j: int|
            0 <= i < end && i < j < natoms && within_cutoff(
                #[trigger] measured[(i, j)],
                cutoff,
                cutoff2,
            ) implies all.contains(pair_from(i, j, measured[(i, j)])) by {
            let p = pair_from(i, j, measured[(i, j)]);
            if i < end - 1 {
                let k = choose|k: int| 0 <= k < before.len() && before[k] == p;
                assert(all[k] == p);
            } else {
                let k = choose|k: int| 0 <= k < row.len() && row[k] == p;
                assert(all[before.len() + k] == p);
            }
        }
    }
}

/// The lower of two indices.
pub open spec fn lower(a: int, b: int) -> int {
    if a < b {
        a
    } else {
        b
    }
}

/// The higher of two indices.
pub open spec fn upper(a: int, b: int) -> int {
    if a < b {
        b
    } else {
        a
    }
}

/// Which atoms are paired does not depend on how the atoms are numbered.
///
/// Take two atoms that carry the indices `i < j` in one numbering and the
/// distinct indices `new_i` and `new_j` in another, and let the squared
/// distance and the distance measured between them be the same in both.
/// Then the pair list of the one numbering holds the pair `(i, j)` exactly
/// when the list of the other holds the pair of `new_i` and `new_j`, lower
/// index first, and where they do the two pairs have the same distance.
pub proof fn lemma_relabeling_keeps_pairs(
    measured: Map<(int, int), Separation>,
    relabeled: Map<(int, int), Separation>,
    cutoff: Real,
    cutoff2: Real,
    natoms: int,
    i: int,
    j: int,
    new_i: int,
    new_j: int,
)
    requires
        0 <= natoms <= usize::MAX,
        0 <= i < j < natoms,
        0 <= new_i < natoms,
        0 <= new_j < natoms,
        new_i != new_j,
        relabeled[(lower(new_i, new_j), upper(new_i, new_j))].distance2 == measured[(i, j)].distance2,
        relabeled[(lower(new_i, new_j), upper(new_i, new_j))].distance == measured[(i, j)].distance,
    ensures
        has_pair(selected_pairs(measured, cutoff, cutoff2, natoms), i, j) <==> has_pair(
            selected_pairs(relabeled, cutoff, cutoff2, natoms),
            lower(new_i, new_j),
            upper(new_i, new_j),
        ),
        forall|k: int, l: int|
            #![trigger selected_pairs(measured, cutoff, cutoff2, natoms)[k], selected_pairs(relabeled, cutoff, cutoff2, natoms)[l]]
            0 <= k < selected_pairs(measured, cutoff, cutoff2, natoms).len() && 0 <= l
                < selected_pairs(relabeled, cutoff, cutoff2, natoms).len() && selected_pairs(
                measured,
                cutoff,
                cutoff2,
                natoms,
            )[k].first == i && selected_pairs(measured, cutoff, cutoff2, natoms)[k].second == j
                && selected_pairs(relabeled, cutoff, cutoff2, natoms)[l].first == lower(new_i, new_j)
                && selected_pairs(relabeled, cutoff, cutoff2, natoms)[l].second == upper(
                new_i,
                new_j,
            ) ==> selected_pairs(measured, cutoff, cutoff2, natoms)[k].distance == selected_pairs(
                relabeled,
                cutoff,
                cutoff2,
                natoms,
            )[l].distance,
{
    let lo = lower(new_i, new_j);
    let hi = upper(new_i, new_j);
    lemma_pair_is_listed(measured, cutoff, cutoff2, natoms, i, j);
    lemma_pair_is_listed(relabeled, cutoff, cutoff2, natoms, lo, hi);
    lemma_selected_pairs(measured, cutoff, cutoff2, natoms);
    lemma_selected_pairs(relabeled, cutoff, cutoff2, natoms);
}

/// A couple of atoms is in the pair list exactly when the separation
/// measured for it lies inside the cutoff.
pub proof fn lemma_pair_is_listed(
    measured: Map<(int, int), Separation>,
    cutoff: Real,
    cutoff2: Real,
    natoms: int,
    i: int,
    j: int,
)
    requires
        0 <= natoms <= usize::MAX,
        0 <= i < j < natoms,
    ensures
        has_pair(selected_pairs(measured, cutoff, cutoff2, natoms), i, j) <==> within_cutoff(
            measured[(i, j)],
            cutoff,
            cutoff2,
        ),
{
    let all = selected_pairs(measured, cutoff, cutoff2, natoms);
    lemma_selected_pairs(measured, cutoff, cutoff2, natoms);
    if within_cutoff(measured[(i, j)], cutoff, cutoff2) {
        let p = pair_from(i, j, measured[(i, j)]);
        assert(all.contains(p));
        let k = choose|k: int| 0 <= k < all.len() && all[k] == p;
        assert(all[k].first == i && all[k].second == j);
    }
    if has_pair(all, i, j) {
        let k = choose|k: int| 0 <= k < all.len() && all[k].first == i && all[k].second == j;
        assert(within_cutoff(measured[(all[k].first as int, all[k].second as int)], cutoff, cutoff2));
    }
}

/// Filtering a sequence with one more item at its end.
pub proof fn lemma_filter_push(s: Seq<Pair>, p: Pair, pred: spec_fn(Pair) -> bool)
    ensures
        s.push(p).filter(pred) == if pred(p) {
            s.filter(pred).push(p)
        } else {
            s.filter(pred)
        },
{
    reveal(Seq::filter);
    assert(s.push(p).drop_last() =~= s);
}

/// All pairs of a set of atoms inside a cutoff, and for every atom the
/// pairs that it is part of.
#[derive(Clone, Debug)]
pub struct CrappyNeighborsList {
    cutoff: Real,
    pairs: Vec<Pair>,
    pairs_by_center: Vec<Vec<Pair>>,
}

impl CrappyNeighborsList {
    /// The cutoff that the list was built for.
    pub closed spec fn cutoff_spec(&self) -> Real {
        self.cutoff
    }

    /// The pairs of the list, in order.
    pub closed spec fn pairs_spec(&self) -> Seq<Pair> {
        self.pairs@
    }

    /// The number of atoms that the list was built for.
    pub closed spec fn natoms(&self) -> nat {
        self.pairs_by_center@.len()
    }

    /// The pairs filed under atom `center`.
    pub closed spec fn center_pairs(&self, center: int) -> Seq<Pair> {
        self.pairs_by_center@[center]@
    }

    /// The invariant of a list: every pair joins a lower index to a higher
    /// one among the atoms; the pairs are in strictly rising order; and
    /// under every atom stand exactly the pairs that it is part of, in the
    /// order of the list. So every pair is filed twice, once under each of
    /// its atoms.
    pub open spec fn wf(&self) -> bool {
        &&& forall|k: int|
            0 <= k < self.pairs_spec().len() ==> (#[trigger] self.pairs_spec()[k]).first
                < self.pairs_spec()[k].second < self.natoms()
        &&& strictly_ordered(self.pairs_spec())
        &&& forall|center: int|
            0 <= center < self.natoms() ==> #[trigger] self.center_pairs(center)
                == self.pairs_spec().filter(touching(center))
    }

    /// Builds the list of the given positions in the given cell.
    ///
    /// Every couple `i < j` of atoms is measured once, by `measure` on the
    /// cell and the two positions, and kept if the squared distance that
    /// came back is below `cutoff2`, the square of the cutoff. A cutoff
    /// that is no number above zero gives the empty list, and nothing is
    /// measured for it.
    pub fn new<F: Fn(UnitCell, Vector3D, Vector3D) -> Separation>(
        positions: &[Vector3D],
        cell: UnitCell,
        cutoff: Real,
        cutoff2: Real,
        measure: F,
    ) -> (list: CrappyNeighborsList)
        requires
            forall|i: int, j: int|
                0 <= i < j < positions@.len() ==> call_requires(
                    measure,
                    (cell, #[trigger] positions@[i], #[trigger] positions@[j]),
                ),
        ensures
            list.wf(),
            list.cutoff_spec() == cutoff,
            list.natoms() == positions@.len(),
            !cutoff.positive() ==> list.pairs_spec().len() == 0,
            cutoff.positive() ==> exists|measured: Map<(int, int), Separation>|
                measures_all(measure, cell, positions@, measured) && list.pairs_spec()
                    == selected_pairs(measured, cutoff, cutoff2, positions@.len() as int),
    {
        let natoms: usize = positions.len();
        let mut pairs: Vec<Pair> = Vec::new();
        let ghost mut measured: Map<(int, int), Separation> = Map::empty();
        if cutoff.is_positive() {
            let mut i: usize = 0;
            while i < natoms
                invariant
                    natoms == positions@.len(),
                    i <= natoms,
                    forall|a: int, b: int|
                        0 <= a < b < positions@.len() ==> call_requires(
                            measure,
                            (cell, #[trigger] positions@[a], #[trigger] positions@[b]),
                        ),
                    forall|a: int, b: int|
                        0 <= a < i && a < b < natoms ==> call_ensures(
                            measure,
                            (cell, positions@[a], positions@[b]),
                            #[trigger] measured[(a, b)],
                        ),
                    pairs@ == pairs_upto(measured, cutoff, cutoff2, natoms as int, i as int),
                decreases natoms - i,
            {
                let mut j: usize = i + 1;
                proof {
                    assert(row_pairs(measured, cutoff, cutoff2, i as int, j as int) =~= Seq::empty());
                }
                while j < natoms
                    invariant
                        natoms == positions@.len(),
                        i < natoms,
                        i < j <= natoms,
                        forall|a: int, b: int|
                            0 <= a < b < positions@.len() ==> call_requires(
                                measure,
                                (cell, #[trigger] positions@[a], #[trigger] positions@[b]),
                            ),
                        forall|a: int, b: int|
                            (0 <= a < i && a < b < natoms) || (a == i && i < b < j) ==> call_ensures(
                                measure,
                                (cell, positions@[a], positions@[b]),
                                #[trigger] measured[(a, b)],
                            ),
                        pairs@ == pairs_upto(measured, cutoff, cutoff2, natoms as int, i as int)
                            + row_pairs(measured, cutoff, cutoff2, i as int, j as int),
                    decreases natoms - j,
                {
                    let sep = measure(cell, positions[i], positions[j]);
                    proof {
                        let extended = measured.insert((i as int, j as int), sep);
                        lemma_upto_frame(measured, extended, cutoff, cutoff2, natoms as int, i as int);
                        lemma_row_frame(measured, extended, cutoff, cutoff2, i as int, j as int);
                        measured = extended;
                    }
                    match select_pair(i, j, sep, cutoff, cutoff2) {
                        Some(pair) => {
                            pairs.push(pair);
                        },
                        None => {},
                    }
                    j += 1;
                }
                i += 1;
            }
            proof {
                lemma_selected_pairs(measured, cutoff, cutoff2, natoms as int);
                assert(measures_all(measure, cell, positions@, measured));
            }
        }
        let mut pairs_by_center: Vec<Vec<Pair>> = Vec::new();
        let mut c: usize = 0;
        while c < natoms
            invariant
                c <= natoms,
                pairs_by_center@.len() == c,
                forall|a: int| 0 <= a < c ==> (#[trigger] pairs_by_center@[a])@ == Seq::<Pair>::empty(),
            decreases natoms - c,
        {
            pairs_by_center.push(Vec::new());
            c += 1;
        }
        proof {
            reveal(Seq::filter);
            assert(pairs@.take(0) =~= Seq::empty());
        }
        let mut k: usize = 0;
        while k < pairs.len()
            invariant
                k <= pairs@.len(),
                pairs_by_center@.len() == natoms,
                forall|n: int|
                    0 <= n < pairs@.len() ==> (#[trigger] pairs@[n]).first < pairs@[n].second < natoms,
                forall|a: int|
                    0 <= a < natoms ==> (#[trigger] pairs_by_center@[a])@ == pairs@.take(k as int).filter(
                        touching(a),
                    ),
            decreases pairs@.len() - k,
        {
            let pair = pairs[k];
            proof {
                assert(pairs@.take(k + 1) =~= pairs@.take(k as int).push(pair));
                assert forall|a: int| 0 <= a < natoms implies pairs@.take(k + 1).filter(touching(a))
                    == if pair.touches(a) {
                    pairs@.take(k as int).filter(touching(a)).push(pair)
                } else {
                    pairs@.take(k as int).filter(touching(a))
                } by {
                    lemma_filter_push(pairs@.take(k as int), pair, touching(a));
                }
            }
            pairs_by_center[pair.first].push(pair);
            pairs_by_center[pair.second].push(pair);
            k += 1;
        }
        proof {
            assert(pairs@.take(pairs@.len() as int) =~= pairs@);
        }
        CrappyNeighborsList { cutoff, pairs, pairs_by_center }
    }

    /// The cutoff that the list was built for.
    pub fn cutoff(&self) -> (cutoff: Real)
        ensures
            cutoff == self.cutoff_spec(),
    {
        self.cutoff
    }

    /// The number of atoms that the list was built for.
    pub fn size(&self) -> (n: usize)
        ensures
            n == self.natoms(),
    {
        self.pairs_by_center.len()
    }

    /// All pairs, in order.
    pub fn pairs(&self) -> (pairs: &[Pair])
        ensures
            pairs@ == self.pairs_spec(),
    {
        self.pairs.as_slice()
    }

    /// The pairs that atom `center` is part of, in the order of the list.
    pub fn pairs_containing(&self, center: usize) -> (pairs: &[Pair])
        requires
            center < self.natoms(),
        ensures
            pairs@ == self.center_pairs(center as int),
    {
        self.pairs_by_center[center].as_slice()
    }
}

} // verus!
