//! The matrix itself: a shape and a buffer of cells in row-major order.

use vstd::prelude::*;
use crate::error::MatrixError;
use crate::grid::Grid;
use crate::grid::kept_below;
use crate::grid::minor_position;
use crate::grid::offset_in_range;
use crate::grid::position_is_offset;
use crate::scalar::is_zero;

verus! {

/// An `m`-by-`n` matrix that owns its cells.
pub struct Matrix<T> {
    m: u32,
    n: u32,
    entries: Vec<T>,
}

impl<T> View for Matrix<T> {
    type V = Grid<T>;

    closed spec fn view(&self) -> Grid<T> {
        Grid { rows: self.m as nat, cols: self.n as nat, cells: self.entries@ }
    }
}

impl<T> Matrix<T> {
    #[verifier::type_invariant]
    spec fn buffer_fits_shape(self) -> bool {
        self.entries@.len() == self.m * self.n
    }

    /// The number of rows.
    pub fn rows(&self) -> (r: u32)
        ensures
            r == self@.rows,
            self@.wf(),
    {
        proof {
            use_type_invariant(self);
        }
        self.m
    }

    /// The number of columns.
    pub fn cols(&self) -> (r: u32)
        ensures
            r == self@.cols,
            self@.wf(),
    {
        proof {
            use_type_invariant(self);
        }
        self.n
    }

    /// The position of cell `(i, j)` in the buffer.
    pub fn get_index(&self, i: u32, j: u32) -> (idx: usize)
        requires
            self@.has(i as int, j as int),
        ensures
            idx == self@.offset(i as int, j as int),
            idx < self@.cells.len(),
            idx as int / self@.cols as int == i,
            idx as int % self@.cols as int == j,
    {
        proof {
            use_type_invariant(self);
            offset_in_range(self@, i as int, j as int);
            assert(self.entries@.len() == self.entries.len() <= usize::MAX);
            assert(0 <= (i as int) * (self.n as int)) by (nonlinear_arith);
        }
        (i as usize) * (self.n as usize) + (j as usize)
    }

    /// The row and the column of the cell at position `idx` of the buffer.
    pub fn get_coords(&self, idx: usize) -> (at: (u32, u32))
        requires
            self@.cols > 0,
            idx <= u32::MAX,
        ensures
            at.0 == idx as int / self@.cols as int,
            at.1 == idx as int % self@.cols as int,
            idx < self@.cells.len() ==> self@.has(at.0 as int, at.1 as int) && self@.offset(
                at.0 as int,
                at.1 as int,
            ) == idx,
    {
        let n = self.n as usize;
        proof {
            use_type_invariant(self);
            if idx < self@.cells.len() {
                position_is_offset(self@, idx as int);
            }
            vstd::arithmetic::div_mod::lemma_div_is_ordered_by_denominator(idx as int, 1, n as int);
            vstd::arithmetic::div_mod::lemma_mod_bound(idx as int, n as int);
        }
        ((idx / n) as u32, (idx % n) as u32)
    }

    /// The cell of row `i` and column `j`, or `OutOfRange` where there is none.
    pub fn get(&self, i: u32, j: u32) -> (r: Result<T, MatrixError>) where T: Copy
        ensures
            self@.has(i as int, j as int) ==> r == Ok::<T, MatrixError>(self@.at(i as int, j as int)),
            !self@.has(i as int, j as int) ==> r == Err::<T, MatrixError>(MatrixError::OutOfRange),
    {
        if i < self.m && j < self.n {
            let idx = self.get_index(i, j);
            Ok(self.entries[idx])
        } else {
            Err(MatrixError::OutOfRange)
        }
    }

    /// Writes `value` into the cell of row `i` and column `j`. Where there is
    /// no such cell the matrix stays as it was and `OutOfRange` is returned.
    pub fn set(&mut self, i: u32, j: u32, value: T) -> (r: Result<(), MatrixError>)
        ensures
            old(self)@.has(i as int, j as int) ==> r == Ok::<(), MatrixError>(()) && final(self)@
                == old(self)@.put(i as int, j as int, value),
            !old(self)@.has(i as int, j as int) ==> r == Err::<(), MatrixError>(
                MatrixError::OutOfRange,
            ) && final(self)@ == old(self)@,
            final(self)@.wf(),
    {
        proof {
            use_type_invariant(&*self);
        }
        if i < self.m && j < self.n {
            let idx = self.get_index(i, j);
            self.entries[idx] = value;
            Ok(())
        } else {
            Err(MatrixError::OutOfRange)
        }
    }

    /// The `m`-by-`n` matrix whose cells all hold the zero of the element type.
    pub fn new(m: u32, n: u32) -> (r: Matrix<T>) where T: Default + Copy
        ensures
            r@.rows == m,
            r@.cols == n,
            r@.wf(),
            forall|k: int| 0 <= k < r@.cells.len() ==> is_zero(#[trigger] r@.cells[k]),
    {
        let zero = T::default();
        let mut entries: Vec<T> = Vec::new();
        let mut i: u32 = 0;
        while i < m
            invariant
                i <= m,
                entries@.len() == i * n,
                forall|k: int| 0 <= k < entries@.len() ==> is_zero(#[trigger] entries@[k]),
                is_zero(zero),
            decreases m - i,
        {
            let mut j: u32 = 0;
            while j < n
                invariant
                    j <= n,
                    entries@.len() == i * n + j,
                    forall|k: int| 0 <= k < entries@.len() ==> is_zero(#[trigger] entries@[k]),
                    is_zero(zero),
                decreases n - j,
            {
                entries.push(zero);
                j += 1;
            }
            assert((i + 1) * n == i * n + n) by (nonlinear_arith);
            i += 1;
        }
        Matrix { m, n, entries }
    }

    /// Row `i`, from the first column to the last.
    pub fn get_row_vec(&self, i: usize) -> (row: Vec<T>) where T: Copy
        requires
            i < self@.rows,
        ensures
            row@ == self@.row(i as int),
    {
        let mut row: Vec<T> = Vec::new();
        let mut j: u32 = 0;
        while j < self.n
            invariant
                j <= self.n,
                i < self@.rows,
                row@.len() == j,
                forall|c: int| 0 <= c < j ==> row@[c] == self@.at(i as int, c),
            decreases self.n - j,
        {
            let idx = self.get_index(i as u32, j);
            row.push(self.entries[idx]);
            j += 1;
        }
        assert(row@ =~= self@.row(i as int));
        row
    }

    /// Column `j`, from the first row to the last.
    pub fn get_col_vec(&self, j: usize) -> (col: Vec<T>) where T: Copy
        requires
            j < self@.cols,
        ensures
            col@ == self@.col(j as int),
    {
        let mut col: Vec<T> = Vec::new();
        let mut i: u32 = 0;
        while i < self.m
            invariant
                i <= self.m,
                j < self@.cols,
                col@.len() == i,
                forall|r: int| 0 <= r < i ==> col@[r] == self@.at(r, j as int),
            decreases self.m - i,
        {
            let idx = self.get_index(i, j as u32);
            col.push(self.entries[idx]);
            i += 1;
        }
        assert(col@ =~= self@.col(j as int));
        col
    }

    /// The matrix without row `i` and column `j`, or `OutOfRange` where the
    /// matrix has no such row or no such column.
    pub fn sub_matrix(&self, i: u32, j: u32) -> (r: Result<Matrix<T>, MatrixError>) where T: Copy
        ensures
            self@.has(i as int, j as int) ==> r is Ok && r->Ok_0@ == self@.minor(i as int, j as int)
                && r->Ok_0@.wf(),
            !self@.has(i as int, j as int) ==> r is Err && r->Err_0 == MatrixError::OutOfRange,
    {
        if !(i < self.m && j < self.n) {
            return Err(MatrixError::OutOfRange);
        }
        let ghost g = self@;
        let ghost w = self.n - 1;
        let mut entries: Vec<T> = Vec::new();
        let mut row: u32 = 0;
        assert(0 * w == 0) by (nonlinear_arith);
        while row < self.m
            invariant
                g == self@,
                w == self.n - 1,
                g.has(i as int, j as int),
                row <= self.m,
                entries@.len() == kept_below(row as int, i as int) * w,
                forall|k: int|
                    0 <= k < entries@.len() ==> entries@[k] == g.cells[g.minor_source(
                        i as int,
                        j as int,
                        k,
                    )],
            decreases self.m - row,
        {
            if row != i {
                let mut col: u32 = 0;
                while col < self.n
                    invariant
                        g == self@,
                        w == self.n - 1,
                        g.has(i as int, j as int),
                        row < self.m,
                        row != i,
                        col <= self.n,
                        entries@.len() == kept_below(row as int, i as int) * w + kept_below(
                            col as int,
                            j as int,
                        ),
                        forall|k: int|
                            0 <= k < entries@.len() ==> entries@[k] == g.cells[g.minor_source(
                                i as int,
                                j as int,
                                k,
                            )],
                    decreases self.n - col,
                {
                    if col != j {
                        let idx = self.get_index(row, col);
                        proof {
                            minor_position(g, i as int, j as int, row as int, col as int);
                        }
                        entries.push(self.entries[idx]);
                    }
                    col += 1;
                }
                assert((kept_below(row as int, i as int) + 1) * w == kept_below(
                    row as int,
                    i as int,
                ) * w + w) by (nonlinear_arith);
            }
            row += 1;
        }
        assert(entries@ =~= g.minor(i as int, j as int).cells);
        Ok(Matrix { m: self.m - 1, n: self.n - 1, entries })
    }

    /// The cells in row-major order.
    pub fn entries(&self) -> (cells: &Vec<T>)
        ensures
            cells@ == self@.cells,
            self@.wf(),
    {
        proof {
            use_type_invariant(self);
        }
        &self.entries
    }

    /// The `m`-by-`n` matrix over the given cells, taken in row-major order, or
    /// `DimensionMismatch` where their number is not `m * n`.
    pub fn from_vec(m: u32, n: u32, entries: Vec<T>) -> (r: Result<Matrix<T>, MatrixError>)
        ensures
            entries@.len() == m * n ==> r is Ok && r->Ok_0@ == (Grid {
                rows: m as nat,
                cols: n as nat,
                cells: entries@,
            }) && r->Ok_0@.wf(),
            entries@.len() != m * n ==> r is Err && r->Err_0 == MatrixError::DimensionMismatch,
    {
        assert(0 <= m * n <= 0xffff_ffff * 0xffff_ffff) by (nonlinear_arith)
            requires
                0 <= m <= 0xffff_ffff,
                0 <= n <= 0xffff_ffff,
        ;
        let wanted: u64 = (m as u64) * (n as u64);
        if entries.len() as u64 == wanted {
            Ok(Matrix { m, n, entries })
        } else {
            Err(MatrixError::DimensionMismatch)
        }
    }
}

} // verus!
