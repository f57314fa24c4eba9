use std::cell::Cell;

use rascaline::geometry::{CellShape, Pair, Separation, UnitCell, Vector3D};
use rascaline::neighbors::{select_pair, CrappyNeighborsList};
use rascaline::scalar::Real;
use rascaline::system::{SimpleSystem, System};

fn num(x: f64) -> Real {
    Real::from_bits(x.to_bits())
}

fn flt(x: Real) -> f64 {
    f64::from_bits(x.to_bits())
}

fn vector(x: f64, y: f64, z: f64) -> Vector3D {
    Vector3D::new(num(x), num(y), num(z))
}

fn wrap(d: f64, length: f64) -> f64 {
    d - length * (d / length).round()
}

/// Minimum image in an orthorhombic cell.
fn wrap_vector(cell: UnitCell, v: Vector3D) -> Vector3D {
    assert_eq!(cell.shape(), CellShape::Orthorhombic);
    vector(
        wrap(flt(v.x), flt(cell.a.x)),
        wrap(flt(v.y), flt(cell.b.y)),
        wrap(flt(v.z), flt(cell.c.z)),
    )
}

/// Minimum-image separation in an infinite or orthorhombic cell.
fn measure(cell: UnitCell, a: Vector3D, b: Vector3D) -> Separation {
    let mut d = vector(flt(b.x) - flt(a.x), flt(b.y) - flt(a.y), flt(b.z) - flt(a.z));
    cell.vector_image(&mut d, wrap_vector);
    let d2 = flt(d.x) * flt(d.x) + flt(d.y) * flt(d.y) + flt(d.z) * flt(d.z);
    Separation { vector: d, distance2: num(d2), distance: num(d2.sqrt()) }
}

fn build(positions: &[Vector3D], cell: UnitCell, cutoff: f64) -> CrappyNeighborsList {
    CrappyNeighborsList::new(positions, cell, num(cutoff), num(cutoff * cutoff), measure)
}

fn indices(pairs: &[Pair]) -> Vec<(usize, usize)> {
    pairs.iter().map(|p| (p.first, p.second)).collect()
}

#[test]
fn two_atoms_without_periodic_boundaries() {
    let positions = [vector(0.0, 0.0, 0.0), vector(1.5, 0.0, 0.0)];
    let list = build(&positions, UnitCell::infinite(), 2.0);
    let pairs = list.pairs();
    assert_eq!(pairs.len(), 1);
    assert_eq!(pairs[0].first, 0);
    assert_eq!(pairs[0].second, 1);
    assert_eq!(flt(pairs[0].distance), 1.5);
    assert_eq!(pairs[0].vector, vector(1.5, 0.0, 0.0));
    assert_eq!(flt(list.cutoff()), 2.0);
    assert_eq!(list.size(), 2);
}

#[test]
fn two_atoms_across_a_periodic_boundary() {
    let positions = [vector(0.1, 0.0, 0.0), vector(9.9, 0.0, 0.0)];
    let list = build(&positions, UnitCell::cubic(num(10.0)), 1.0);
    let pairs = list.pairs();
    assert_eq!(pairs.len(), 1);
    assert_eq!((pairs[0].first, pairs[0].second), (0, 1));
    assert!((flt(pairs[0].distance) - 0.2).abs() < 1e-12);
    assert!((flt(pairs[0].vector.x) + 0.2).abs() < 1e-12);
    assert_eq!(flt(pairs[0].vector.y), 0.0);
    assert_eq!(flt(pairs[0].vector.z), 0.0);

    // without the wrapping the two atoms are 9.8 apart
    let open = build(&positions, UnitCell::infinite(), 1.0);
    assert_eq!(open.pairs().len(), 0);
}

#[test]
fn no_atoms_no_pairs() {
    let list = build(&[], UnitCell::infinite(), 3.0);
    assert_eq!(list.pairs().len(), 0);
    assert_eq!(list.size(), 0);
    let one = build(&[vector(1.0, 2.0, 3.0)], UnitCell::infinite(), 3.0);
    assert_eq!(one.pairs().len(), 0);
    assert_eq!(one.pairs_containing(0).len(), 0);
}

#[test]
fn cutoff_that_is_not_positive_gives_no_pairs() {
    let positions = [vector(0.0, 0.0, 0.0), vector(0.5, 0.0, 0.0), vector(0.0, 0.5, 0.0)];
    let calls = Cell::new(0usize);
    let counting = |cell: UnitCell, a: Vector3D, b: Vector3D| {
        calls.set(calls.get() + 1);
        measure(cell, a, b)
    };
    for cutoff in [0.0, -0.0, -1.0, -2.0, f64::NAN, f64::NEG_INFINITY] {
        let list = CrappyNeighborsList::new(
            &positions,
            UnitCell::infinite(),
            num(cutoff),
            num(cutoff * cutoff),
            &counting,
        );
        assert_eq!(list.pairs().len(), 0, "cutoff {}", cutoff);
        assert_eq!(list.size(), 3);
        for center in 0..3 {
            assert_eq!(list.pairs_containing(center).len(), 0);
        }
    }
    assert_eq!(calls.get(), 0);
}

#[test]
fn distance_equal_to_the_cutoff_is_outside() {
    let positions = [vector(0.0, 0.0, 0.0), vector(2.0, 0.0, 0.0)];
    assert_eq!(build(&positions, UnitCell::infinite(), 2.0).pairs().len(), 0);
    assert_eq!(build(&positions, UnitCell::infinite(), 2.0000001).pairs().len(), 1);
}

#[test]
fn pairs_come_in_order_and_every_couple_is_measured_once() {
    let positions = [
        vector(0.0, 0.0, 0.0),
        vector(1.0, 0.0, 0.0),
        vector(2.0, 0.0, 0.0),
        vector(3.0, 0.0, 0.0),
        vector(10.0, 0.0, 0.0),
    ];
    let calls = Cell::new(0usize);
    let counting = |cell: UnitCell, a: Vector3D, b: Vector3D| {
        calls.set(calls.get() + 1);
        measure(cell, a, b)
    };
    let list =
        CrappyNeighborsList::new(&positions, UnitCell::infinite(), num(2.5), num(6.25), &counting);
    assert_eq!(calls.get(), 10);
    assert_eq!(indices(list.pairs()), vec![(0, 1), (0, 2), (1, 2), (1, 3), (2, 3)]);
    for pair in list.pairs() {
        assert!(pair.first < pair.second);
        let v = pair.vector;
        let norm = (flt(v.x) * flt(v.x) + flt(v.y) * flt(v.y) + flt(v.z) * flt(v.z)).sqrt();
        assert!((flt(pair.distance) - norm).abs() < 1e-12);
        assert!(flt(pair.distance) >= 0.0);
    }
    assert_eq!(flt(list.pairs()[1].distance), 2.0);
    assert_eq!(list.pairs()[1].vector, vector(2.0, 0.0, 0.0));
}

#[test]
fn every_pair_is_filed_under_both_its_atoms() {
    let positions = [
        vector(0.0, 0.0, 0.0),
        vector(1.0, 0.0, 0.0),
        vector(2.0, 0.0, 0.0),
        vector(3.0, 0.0, 0.0),
        vector(10.0, 0.0, 0.0),
    ];
    let list = build(&positions, UnitCell::infinite(), 2.5);
    assert_eq!(indices(list.pairs_containing(0)), vec![(0, 1), (0, 2)]);
    assert_eq!(indices(list.pairs_containing(1)), vec![(0, 1), (1, 2), (1, 3)]);
    assert_eq!(indices(list.pairs_containing(2)), vec![(0, 2), (1, 2), (2, 3)]);
    assert_eq!(indices(list.pairs_containing(3)), vec![(1, 3), (2, 3)]);
    assert_eq!(indices(list.pairs_containing(4)), vec![]);
    let filed: usize = (0..5).map(|c| list.pairs_containing(c).len()).sum();
    assert_eq!(filed, 2 * list.pairs().len());
    // the vector is stored once, from first to second, also under the second atom
    let from_second = list.pairs_containing(1)[0];
    assert_eq!(from_second.vector, vector(1.0, 0.0, 0.0));
    assert_eq!(from_second.vector.neg(), vector(-1.0, 0.0, 0.0));
}

#[test]
fn select_pair_keeps_what_is_inside_the_cutoff() {
    let sep = Separation { vector: vector(1.0, 2.0, 2.0), distance2: num(9.0), distance: num(3.0) };
    let kept = select_pair(4, 7, sep, num(3.5), num(12.25)).unwrap();
    assert_eq!((kept.first, kept.second), (4, 7));
    assert_eq!(flt(kept.distance), 3.0);
    assert_eq!(kept.vector, vector(1.0, 2.0, 2.0));
    assert!(select_pair(4, 7, sep, num(3.0), num(9.0)).is_none());
    assert!(select_pair(4, 7, sep, num(-3.5), num(12.25)).is_none());
    assert!(select_pair(4, 7, sep, num(0.0), num(12.25)).is_none());
    assert!(select_pair(4, 7, sep, num(f64::NAN), num(12.25)).is_none());
    let broken =
        Separation { vector: vector(1.0, 2.0, 2.0), distance2: num(f64::NAN), distance: num(3.0) };
    assert!(select_pair(4, 7, broken, num(3.5), num(12.25)).is_none());
}

#[test]
fn renumbering_the_atoms_keeps_the_pairs() {
    let positions = [
        vector(0.3, 0.1, 9.8),
        vector(1.2, 0.4, 0.1),
        vector(9.7, 9.9, 0.2),
        vector(5.0, 5.0, 5.0),
        vector(4.2, 5.5, 5.1),
        vector(0.1, 8.9, 0.4),
    ];
    let order = [4usize, 2, 5, 0, 3, 1];
    let mut renumbered = [vector(0.0, 0.0, 0.0); 6];
    for (old, &new) in order.iter().enumerate() {
        renumbered[new] = positions[old];
    }
    let cell = UnitCell::cubic(num(10.0));
    let list = build(&positions, cell, 2.0);
    let other = build(&renumbered, cell, 2.0);
    assert!(list.pairs().len() > 2);
    assert_eq!(list.pairs().len(), other.pairs().len());
    let mut expected: Vec<(usize, usize, u64)> = list
        .pairs()
        .iter()
        .map(|p| {
            let (a, b) = (order[p.first], order[p.second]);
            (a.min(b), a.max(b), p.distance.to_bits())
        })
        .collect();
    expected.sort();
    let found: Vec<(usize, usize, u64)> =
        other.pairs().iter().map(|p| (p.first, p.second, p.distance.to_bits())).collect();
    assert_eq!(found, expected);
}

#[test]
fn add_atoms() {
    let mut system = SimpleSystem::new(UnitCell::cubic(num(10.0)));
    system.add_atom(3, vector(2.0, 3.0, 4.0));
    system.add_atom(1, vector(1.0, 3.0, 4.0));
    system.add_atom(3, vector(5.0, 3.0, 4.0));

    assert_eq!(system.size(), 3);
    assert_eq!(system.species().len(), 3);
    assert_eq!(system.positions().len(), 3);

    assert_eq!(system.species(), &[3, 1, 3]);
    assert_eq!(
        system.positions(),
        &[vector(2.0, 3.0, 4.0), vector(1.0, 3.0, 4.0), vector(5.0, 3.0, 4.0),]
    );
}

#[test]
fn new_system_is_empty() {
    let system = SimpleSystem::new(UnitCell::cubic(num(10.0)));
    assert_eq!(system.size(), 0);
    assert_eq!(system.positions().len(), 0);
    assert_eq!(system.species().len(), 0);
    assert_eq!(system.cell().shape(), CellShape::Orthorhombic);
    assert_eq!(flt(system.cell().a.x), 10.0);
}

#[test]
fn neighbors_are_computed_once_for_one_cutoff() {
    let mut system = SimpleSystem::new(UnitCell::infinite());
    system.add_atom(1, vector(0.0, 0.0, 0.0));
    system.add_atom(1, vector(1.5, 0.0, 0.0));
    system.add_atom(8, vector(0.0, 1.0, 0.0));
    let calls = Cell::new(0usize);
    let counting = |cell: UnitCell, a: Vector3D, b: Vector3D| {
        calls.set(calls.get() + 1);
        measure(cell, a, b)
    };
    system.compute_neighbors(num(2.0), num(4.0), &counting);
    assert_eq!(calls.get(), 3);
    let first: Vec<(usize, usize, u64, u64, u64, u64)> = system
        .pairs()
        .iter()
        .map(|p| {
            (
                p.first,
                p.second,
                p.distance.to_bits(),
                p.vector.x.to_bits(),
                p.vector.y.to_bits(),
                p.vector.z.to_bits(),
            )
        })
        .collect();
    assert_eq!(first.len(), 3);

    system.compute_neighbors(num(2.0), num(4.0), &counting);
    assert_eq!(calls.get(), 3);
    let second: Vec<(usize, usize, u64, u64, u64, u64)> = system
        .pairs()
        .iter()
        .map(|p| {
            (
                p.first,
                p.second,
                p.distance.to_bits(),
                p.vector.x.to_bits(),
                p.vector.y.to_bits(),
                p.vector.z.to_bits(),
            )
        })
        .collect();
    assert_eq!(first, second);

    // another cutoff builds the list anew
    system.compute_neighbors(num(1.2), num(1.44), &counting);
    assert_eq!(calls.get(), 6);
    assert_eq!(indices(system.pairs()), vec![(0, 2)]);
    assert_eq!(indices(system.pairs_containing(0)), vec![(0, 2)]);
    assert_eq!(indices(system.pairs_containing(1)), vec![]);
    assert_eq!(indices(system.pairs_containing(2)), vec![(0, 2)]);
}

#[test]
fn changing_the_atoms_drops_the_pair_list() {
    let mut system = SimpleSystem::new(UnitCell::infinite());
    system.add_atom(1, vector(0.0, 0.0, 0.0));
    system.add_atom(1, vector(1.5, 0.0, 0.0));
    let calls = Cell::new(0usize);
    let counting = |cell: UnitCell, a: Vector3D, b: Vector3D| {
        calls.set(calls.get() + 1);
        measure(cell, a, b)
    };
    system.compute_neighbors(num(2.0), num(4.0), &counting);
    assert_eq!(indices(system.pairs()), vec![(0, 1)]);
    assert_eq!(calls.get(), 1);

    system.set_position(1, vector(5.0, 0.0, 0.0));
    assert_eq!(system.positions()[1], vector(5.0, 0.0, 0.0));
    system.compute_neighbors(num(2.0), num(4.0), &counting);
    assert_eq!(calls.get(), 2);
    assert_eq!(system.pairs().len(), 0);

    system.add_atom(6, vector(5.0, 1.0, 0.0));
    system.compute_neighbors(num(2.0), num(4.0), &counting);
    assert_eq!(calls.get(), 5);
    assert_eq!(indices(system.pairs()), vec![(1, 2)]);
    assert_eq!(system.species(), &[1, 1, 6]);
}

#[test]
fn copy_of_a_system_has_its_atoms_and_no_pairs_yet() {
    let mut system = SimpleSystem::new(UnitCell::cubic(num(7.0)));
    system.add_atom(3, vector(2.0, 3.0, 4.0));
    system.add_atom(1, vector(1.0, 3.0, 4.0));
    system.compute_neighbors(num(2.0), num(4.0), measure);
    let mut copy = SimpleSystem::from_system(&system);
    assert_eq!(copy.size(), 2);
    assert_eq!(copy.species(), system.species());
    assert_eq!(copy.positions(), system.positions());
    assert_eq!(flt(copy.cell().b.y), 7.0);
    let calls = Cell::new(0usize);
    let counting = |cell: UnitCell, a: Vector3D, b: Vector3D| {
        calls.set(calls.get() + 1);
        measure(cell, a, b)
    };
    copy.compute_neighbors(num(2.0), num(4.0), &counting);
    assert_eq!(calls.get(), 1);
    assert_eq!(indices(copy.pairs()), vec![(0, 1)]);
}

#[test]
fn image_in_an_infinite_cell_is_the_vector_itself() {
    let never = |_: UnitCell, _: Vector3D| -> Vector3D { panic!("nothing to wrap") };
    for v in [
        vector(1.0, -2.0, 3.0),
        vector(1e300, -0.0, 0.0),
        vector(f64::NAN, f64::INFINITY, f64::NEG_INFINITY),
    ] {
        let mut image = v;
        UnitCell::infinite().vector_image(&mut image, never);
        assert_eq!(image.x.to_bits(), v.x.to_bits());
        assert_eq!(image.y.to_bits(), v.y.to_bits());
        assert_eq!(image.z.to_bits(), v.z.to_bits());
    }
}

#[test]
fn image_in_a_periodic_cell_is_the_wrapped_vector() {
    let cell = UnitCell::orthorhombic(num(10.0), num(4.0), num(2.0));
    let mut image = vector(9.0, 1.0, -1.5);
    cell.vector_image(&mut image, wrap_vector);
    assert_eq!(image, vector(-1.0, 1.0, 0.5));
    let norm2 = |v: Vector3D| flt(v.x) * flt(v.x) + flt(v.y) * flt(v.y) + flt(v.z) * flt(v.z);
    // never longer than half the diagonal of the cell
    assert!(norm2(image) <= 0.25 * (100.0 + 16.0 + 4.0));
}

#[test]
fn unit_cells() {
    let infinite = UnitCell::infinite();
    assert!(infinite.is_infinite());
    assert_eq!(infinite.shape(), CellShape::Infinite);
    let cubic = UnitCell::cubic(num(10.0));
    assert!(!cubic.is_infinite());
    assert_eq!(cubic.shape(), CellShape::Orthorhombic);
    assert_eq!(cubic.a, vector(10.0, 0.0, 0.0));
    assert_eq!(cubic.b, vector(0.0, 10.0, 0.0));
    assert_eq!(cubic.c, vector(0.0, 0.0, 10.0));
    let box3 = UnitCell::orthorhombic(num(1.0), num(2.0), num(3.0));
    assert_eq!(box3.a, vector(1.0, 0.0, 0.0));
    assert_eq!(box3.b, vector(0.0, 2.0, 0.0));
    assert_eq!(box3.c, vector(0.0, 0.0, 3.0));
    let skew =
        UnitCell::triclinic(vector(1.0, 0.0, 0.0), vector(0.5, 2.0, 0.0), vector(0.0, 0.0, 3.0));
    assert_eq!(skew.shape(), CellShape::Triclinic);
    assert_eq!(skew.b, vector(0.5, 2.0, 0.0));
    assert!(!skew.is_infinite());
}

#[test]
fn vectors_compare_as_numbers() {
    assert_eq!(vector(0.0, 1.0, 2.0), vector(-0.0, 1.0, 2.0));
    assert_ne!(vector(0.0, 1.0, 2.0), vector(0.0, 1.0, 2.5));
    assert_ne!(vector(f64::NAN, 1.0, 2.0), vector(f64::NAN, 1.0, 2.0));
    assert!(vector(0.0, 1.0, 2.0).is_finite());
    assert!(!vector(0.0, f64::INFINITY, 2.0).is_finite());
    assert_eq!(Vector3D::zero(), vector(0.0, 0.0, 0.0));
    assert_eq!(vector(1.0, -2.0, 0.0).neg().x.to_bits(), (-1.0f64).to_bits());
    assert_eq!(vector(1.0, -2.0, 0.0).neg().y.to_bits(), (2.0f64).to_bits());
    assert_eq!(vector(1.0, -2.0, 0.0).neg().z.to_bits(), (-0.0f64).to_bits());
}
