//! Dense two-dimensional tables of reals, indexed by angular order and
//! radial index, kept in `ndarray`'s arrays. A cell holds the bit pattern of
//! its value.

use vstd::prelude::*;
use crate::scalar::Real;

verus! {

/// A dense table of reals with rows and columns, row by angular order and
/// column by radial index.
///
/// The cells are kept in an `ndarray` array of bit patterns, which this
/// library reads and writes only through the functions below.
#[verifier::external_body]
#[derive(Debug)]
pub struct Table {
    cells: ndarray::Array2<u64>,
}

/// The number of rows and of columns of a table.
pub uninterp spec fn table_dim(table: Table) -> (nat, nat);

/// The cells of a table: for every row `l` and column `n` inside its
/// dimensions, the bit pattern at `(l, n)`.
pub uninterp spec fn table_cells(table: Table) -> Map<(int, int), u64>;

/// The bytes that the cells of a table of the given dimensions take, where
/// an axis of length zero counts as one.
pub open spec fn table_bytes(rows: int, cols: int) -> int {
    (if rows == 0 {
        1
    } else {
        rows
    }) * (if cols == 0 {
        1
    } else {
        cols
    }) * 8
}

/// Whether `(l, n)` is a cell of the table.
pub open spec fn in_table(table: Table, l: int, n: int) -> bool {
    0 <= l < table_dim(table).0 && 0 <= n < table_dim(table).1
}

/// Whether every cell of the table holds `bits`.
pub open spec fn filled_with(table: Table, bits: u64) -> bool {
    forall|l: int, n: int| in_table(table, l, n) ==> #[trigger] table_cells(table)[(l, n)] == bits
}

/// Whether every cell of the table holds a finite value.
pub open spec fn all_cells_finite(table: Table) -> bool {
    forall|l: int, n: int|
        in_table(table, l, n) ==> (Real { bits: #[trigger] table_cells(table)[(l, n)] }).finite()
}

/// A table of the given dimensions with `bits` in every cell.
///
/// Trusted: `ndarray::ArrayBase::from_elem` with a pair of lengths makes a
/// two-dimensional array of that shape with a copy of the element in every
/// cell. It panics where the product of the non-zero lengths overflows
/// `isize`, and its buffer cannot hold more than `isize::MAX` bytes; the
/// `requires` leaves both out.
#[verifier::external_body]
pub(crate) fn table_filled(rows: usize, cols: usize, bits: u64) -> (table: Table)
    requires
        table_bytes(rows as int, cols as int) <= isize::MAX,
    ensures
        table_dim(table) == (rows as nat, cols as nat),
        filled_with(table, bits),
{
    Table { cells: ndarray::Array2::from_elem((rows, cols), bits) }
}

/// The dimensions of a table.
///
/// Trusted: `ndarray::ArrayBase::dim` returns, for a two-dimensional array,
/// the pair of its axis lengths.
#[verifier::external_body]
pub(crate) fn table_shape(table: &Table) -> (dim: (usize, usize))
    ensures
        dim.0 == table_dim(*table).0,
        dim.1 == table_dim(*table).1,
{
    table.cells.dim()
}

/// The bit pattern in cell `(l, n)`.
///
/// Trusted: indexing an `ndarray` array by a pair inside its dimensions
/// gives the element at that row and column; outside them it panics, which
/// the `requires` leaves out.
#[verifier::external_body]
pub(crate) fn table_cell(table: &Table, l: usize, n: usize) -> (bits: u64)
    requires
        in_table(*table, l as int, n as int),
    ensures
        bits == table_cells(*table)[(l as int, n as int)],
{
    table.cells[(l, n)]
}

/// Writes `bits` into cell `(l, n)`.
///
/// Trusted: assigning through the index of an `ndarray` array by a pair
/// inside its dimensions replaces the element at that row and column and
/// leaves the shape and every other element as they were; outside the
/// dimensions it panics, which the `requires` leaves out.
#[verifier::external_body]
pub(crate) fn table_store(table: &mut Table, l: usize, n: usize, bits: u64)
    requires
        in_table(*old(table), l as int, n as int),
    ensures
        table_dim(*final(table)) == table_dim(*old(table)),
        table_cells(*final(table)) == table_cells(*old(table)).insert((l as int, n as int), bits),
{
    table.cells[(l, n)] = bits;
}

/// Whether a table of the given dimensions can be made: its cells take no
/// more than `isize::MAX` bytes.
pub fn table_fits(rows: usize, cols: usize) -> (fits: bool)
    ensures
        fits == (table_bytes(rows as int, cols as int) <= isize::MAX),
{
    let r: u128 = if rows == 0 {
        1
    } else {
        rows as u128
    };
    let c: u128 = if cols == 0 {
        1
    } else {
        cols as u128
    };
    let limit: u128 = (isize::MAX as u128) / 8;
    assert(r * c <= 0xffff_ffff_ffff_ffff * 0xffff_ffff_ffff_ffff) by (nonlinear_arith)
        requires
            0 < r <= 0xffff_ffff_ffff_ffff,
            0 < c <= 0xffff_ffff_ffff_ffff,
    ;
    r * c <= limit
}

impl Table {
    /// The table of the given dimensions with positive zero in every cell,
    /// or nothing where a table of these dimensions cannot be made.
    pub fn zeros(rows: usize, cols: usize) -> (table: Option<Table>)
        ensures
            table is Some <==> table_bytes(rows as int, cols as int) <= isize::MAX,
            table matches Some(t) ==> table_dim(t) == (rows as nat, cols as nat) && filled_with(t, 0),
    {
        if table_fits(rows, cols) {
            Some(table_filled(rows, cols, 0))
        } else {
            None
        }
    }

    /// The number of rows and of columns.
    pub fn dim(&self) -> (dim: (usize, usize))
        ensures
            dim.0 == table_dim(*self).0,
            dim.1 == table_dim(*self).1,
    {
        table_shape(self)
    }

    /// The value in cell `(l, n)`, if there is such a cell.
    pub fn get(&self, l: usize, n: usize) -> (value: Option<Real>)
        ensures
            value == if in_table(*self, l as int, n as int) {
                Some(Real { bits: table_cells(*self)[(l as int, n as int)] })
            } else {
                None
            },
    {
        let (rows, cols) = table_shape(self);
        if l < rows && n < cols {
            Some(Real::from_bits(table_cell(self, l, n)))
        } else {
            None
        }
    }

    /// Writes `value` into cell `(l, n)` and says whether there is such a
    /// cell. Without one the table stays as it is.
    pub fn set(&mut self, l: usize, n: usize, value: Real) -> (stored: bool)
        ensures
            stored == in_table(*old(self), l as int, n as int),
            table_dim(*final(self)) == table_dim(*old(self)),
            stored ==> table_cells(*final(self)) == table_cells(*old(self)).insert(
                (l as int, n as int),
                value.bits,
            ),
            !stored ==> *final(self) == *old(self),
    {
        let (rows, cols) = table_shape(self);
        if l < rows && n < cols {
            table_store(self, l, n, value.to_bits());
            true
        } else {
            false
        }
    }

    /// Whether every cell holds a finite value: no infinity and no
    /// not-a-number.
    pub fn is_finite(&self) -> (r: bool)
        ensures
            r == all_cells_finite(*self),
    {
        let (rows, cols) = table_shape(self);
        let mut l: usize = 0;
        while l < rows
            invariant
                rows == table_dim(*self).0,
                cols == table_dim(*self).1,
                l <= rows,
                forall|a: int, b: int|
                    0 <= a < l && 0 <= b < cols ==> (Real {
                        bits: #[trigger] table_cells(*self)[(a, b)],
                    }).finite(),
            decreases rows - l,
        {
            let mut n: usize = 0;
            while n < cols
                invariant
                    rows == table_dim(*self).0,
                    cols == table_dim(*self).1,
                    l < rows,
                    n <= cols,
                    forall|a: int, b: int|
                        (0 <= a < l && 0 <= b < cols) || (a == l && 0 <= b < n) ==> (Real {
                            bits: #[trigger] table_cells(*self)[(a, b)],
                        }).finite(),
                decreases cols - n,
            {
                if !Real::from_bits(table_cell(self, l, n)).is_finite() {
                    return false;
                }
                n += 1;
            }
            l += 1;
        }
        true
    }
}

} // verus!
