//! Geometry primitives: three-component vectors, the unit cell of a
//! simulation box, and the record of a pair of atoms.

use vstd::prelude::*;
use crate::scalar::Real;

verus! {

/// A vector of three reals.
#[derive(Clone, Copy, Debug)]
pub struct Vector3D {
    pub x: Real,
    pub y: Real,
    pub z: Real,
}

impl Vector3D {
    /// Whether all three components are equal as numbers.
    pub open spec fn same(self, other: Vector3D) -> bool {
        self.x.same(other.x) && self.y.same(other.y) && self.z.same(other.z)
    }

    /// The vector with every component negated.
    pub open spec fn neg_spec(self) -> Vector3D {
        Vector3D { x: self.x.neg_spec(), y: self.y.neg_spec(), z: self.z.neg_spec() }
    }

    /// Whether all three components are finite.
    pub open spec fn finite(self) -> bool {
        self.x.finite() && self.y.finite() && self.z.finite()
    }

    /// The vector with the given components.
    pub fn new(x: Real, y: Real, z: Real) -> (v: Vector3D)
        ensures
            v == (Vector3D { x, y, z }),
    {
        Vector3D { x, y, z }
    }

    /// The vector whose components are all positive zero.
    pub fn zero() -> (v: Vector3D)
        ensures
            v.x.bits == 0,
            v.y.bits == 0,
            v.z.bits == 0,
    {
        Vector3D { x: Real::zero(), y: Real::zero(), z: Real::zero() }
    }

    /// The opposite vector. A displacement stored from the first atom of a
    /// pair to the second is read from the second atom's side through this.
    pub fn neg(self) -> (v: Vector3D)
        ensures
            v == self.neg_spec(),
    {
        Vector3D { x: self.x.neg(), y: self.y.neg(), z: self.z.neg() }
    }

    /// Whether all three components are finite.
    pub fn is_finite(self) -> (r: bool)
        ensures
            r == self.finite(),
    {
        self.x.is_finite() && self.y.is_finite() && self.z.is_finite()
    }
}

impl PartialEq for Vector3D {
    /// Equality of the components as numbers.
    fn eq(&self, other: &Vector3D) -> (r: bool) {
        self.x == other.x && self.y == other.y && self.z == other.z
    }
}

impl vstd::std_specs::cmp::PartialEqSpecImpl for Vector3D {
    open spec fn obeys_eq_spec() -> bool {
        true
    }

    open spec fn eq_spec(&self, other: &Vector3D) -> bool {
        self.same(*other)
    }
}

/// How a simulation box repeats.
#[derive(Clone, Copy, Debug, PartialEq, Eq, Structural)]
pub enum CellShape {
    /// No repetition: the box is all of space.
    Infinite,
    /// The three cell vectors lie along the axes.
    Orthorhombic,
    /// Three cell vectors in general position.
    Triclinic,
}

/// The periodic repeat structure of a simulation box: its shape and its
/// three cell vectors.
#[derive(Clone, Copy, Debug)]
pub struct UnitCell {
    pub shape: CellShape,
    pub a: Vector3D,
    pub b: Vector3D,
    pub c: Vector3D,
}

impl UnitCell {
    /// The shape agrees with the vectors: an infinite cell has none, and
    /// the vectors of an orthorhombic cell have no component off their own
    /// axis.
    pub open spec fn wf(self) -> bool {
        &&& self.shape == CellShape::Infinite ==> self.a.x.bits == 0 && self.b.y.bits == 0
            && self.c.z.bits == 0
        &&& self.shape != CellShape::Triclinic ==> self.a.y.bits == 0 && self.a.z.bits == 0
            && self.b.x.bits == 0 && self.b.z.bits == 0 && self.c.x.bits == 0 && self.c.y.bits
            == 0
    }

    /// Whether the minimum image of a displacement under this cell is the
    /// displacement itself, whatever it is.
    pub open spec fn leaves_vectors_unchanged(self) -> bool {
        self.shape == CellShape::Infinite
    }

    /// The cell of a system without periodic boundaries.
    pub fn infinite() -> (cell: UnitCell)
        ensures
            cell.wf(),
            cell.shape == CellShape::Infinite,
    {
        UnitCell {
            shape: CellShape::Infinite,
            a: Vector3D::zero(),
            b: Vector3D::zero(),
            c: Vector3D::zero(),
        }
    }

    /// The cubic cell with the given side.
    pub fn cubic(length: Real) -> (cell: UnitCell)
        ensures
            cell.wf(),
            cell.shape == CellShape::Orthorhombic,
            cell.a.x == length,
            cell.b.y == length,
            cell.c.z == length,
    {
        UnitCell::orthorhombic(length, length, length)
    }

    /// The cell with sides `a`, `b` and `c` along the three axes.
    pub fn orthorhombic(a: Real, b: Real, c: Real) -> (cell: UnitCell)
        ensures
            cell.wf(),
            cell.shape == CellShape::Orthorhombic,
            cell.a.x == a,
            cell.b.y == b,
            cell.c.z == c,
    {
        let zero = Real::zero();
        UnitCell {
            shape: CellShape::Orthorhombic,
            a: Vector3D { x: a, y: zero, z: zero },
            b: Vector3D { x: zero, y: b, z: zero },
            c: Vector3D { x: zero, y: zero, z: c },
        }
    }

    /// The cell spanned by three vectors in general position.
    pub fn triclinic(a: Vector3D, b: Vector3D, c: Vector3D) -> (cell: UnitCell)
        ensures
            cell.wf(),
            cell == (UnitCell { shape: CellShape::Triclinic, a, b, c }),
    {
        UnitCell { shape: CellShape::Triclinic, a, b, c }
    }

    /// Replaces a displacement by its minimum image under the periodicity
    /// of the cell.
    ///
    /// In a cell without periodic boundaries the displacement stays as it
    /// is, bit for bit, and `wrap` is not called. In any other cell the
    /// image is what `wrap` returns for the cell and the displacement.
    pub fn vector_image<F: Fn(UnitCell, Vector3D) -> Vector3D>(&self, vector: &mut Vector3D, wrap: F)
        requires
            !self.leaves_vectors_unchanged() ==> call_requires(wrap, (*self, *old(vector))),
        ensures
            self.leaves_vectors_unchanged() ==> *final(vector) == *old(vector),
            !self.leaves_vectors_unchanged() ==> call_ensures(
                wrap,
                (*self, *old(vector)),
                *final(vector),
            ),
    {
        if !self.is_infinite() {
            *vector = wrap(*self, *vector);
        }
    }

    /// The shape of the cell.
    pub fn shape(&self) -> (shape: CellShape)
        ensures
            shape == self.shape,
    {
        self.shape
    }

    /// Whether the cell has no periodic boundaries, so that the minimum
    /// image of a displacement is the displacement itself.
    pub fn is_infinite(&self) -> (r: bool)
        ensures
            r == self.leaves_vectors_unchanged(),
    {
        match self.shape {
            CellShape::Infinite => true,
            _ => false,
        }
    }
}

/// Two atoms closer to each other than the cutoff.
///
/// `vector` points from `first` to `second` and is stored once, in that
/// direction; read from the side of `second` it is the opposite vector.
#[derive(Clone, Copy, Debug)]
pub struct Pair {
    /// Index of the first atom of the pair.
    pub first: usize,
    /// Index of the second atom of the pair.
    pub second: usize,
    /// Distance between the two atoms.
    pub distance: Real,
    /// Minimum-image displacement from the first atom to the second.
    pub vector: Vector3D,
}

impl Pair {
    /// Whether the pair has `center` as one of its two atoms.
    pub open spec fn touches(self, center: int) -> bool {
        self.first == center || self.second == center
    }

    /// Whether the pair stands before `other` in the order by first atom,
    /// then by second atom.
    pub open spec fn before(self, other: Pair) -> bool {
        self.first < other.first || (self.first == other.first && self.second < other.second)
    }
}

/// What the geometry of two positions in a cell comes to: the
/// minimum-image displacement from the one to the other, its squared norm
/// and its norm.
#[derive(Clone, Copy, Debug)]
pub struct Separation {
    /// Minimum-image displacement.
    pub vector: Vector3D,
    /// Squared norm of `vector`.
    pub distance2: Real,
    /// Norm of `vector`.
    pub distance: Real,
}

} // verus!
