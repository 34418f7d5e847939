//! The mathematical model of a matrix: its shape and its cells in row-major
//! order, and what a row, a column and a minor of it are.

use vstd::prelude::*;

verus! {

/// A rectangular arrangement of `rows * cols` cells. The cell of row `i` and
/// column `j` stands at position `i * cols + j` of `cells`.
pub struct Grid<T> {
    pub rows: nat,
    pub cols: nat,
    pub cells: Seq<T>,
}

/// The `k`-th index that is left when `gap` is taken out of the naturals.
pub open spec fn skip(k: int, gap: int) -> int {
    if k < gap {
        k
    } else {
        k + 1
    }
}

/// How many of the indices below `x` are left when `gap` is taken out.
pub open spec fn kept_below(x: int, gap: int) -> int {
    if x > gap {
        x - 1
    } else {
        x
    }
}

impl<T> Grid<T> {
    /// There are as many cells as the shape asks for.
    pub open spec fn wf(self) -> bool {
        self.cells.len() == self.rows * self.cols
    }

    /// `(i, j)` names a cell.
    pub open spec fn has(self, i: int, j: int) -> bool {
        0 <= i < self.rows && 0 <= j < self.cols
    }

    /// The position of cell `(i, j)` in `cells`.
    pub open spec fn offset(self, i: int, j: int) -> int {
        i * self.cols + j
    }

    /// The cell of row `i` and column `j`.
    pub open spec fn at(self, i: int, j: int) -> T {
        self.cells[self.offset(i, j)]
    }

    /// Row `i`, from the first column to the last.
    pub open spec fn row(self, i: int) -> Seq<T> {
        Seq::new(self.cols, |j: int| self.at(i, j))
    }

    /// Column `j`, from the first row to the last.
    pub open spec fn col(self, j: int) -> Seq<T> {
        Seq::new(self.rows, |i: int| self.at(i, j))
    }

    /// The grid with the same shape and with `value` in cell `(i, j)`.
    pub open spec fn put(self, i: int, j: int, value: T) -> Grid<T> {
        Grid { rows: self.rows, cols: self.cols, cells: self.cells.update(self.offset(i, j), value) }
    }

    /// The position in `cells` from which cell `k` of `minor(i, j)` is taken.
    pub open spec fn minor_source(self, i: int, j: int, k: int) -> int {
        self.offset(skip(k / (self.cols - 1), i), skip(k % (self.cols - 1), j))
    }

    /// What is left when row `i` and column `j` are deleted: the other cells,
    /// in the order in which they stood.
    pub open spec fn minor(self, i: int, j: int) -> Grid<T> {
        Grid {
            rows: (self.rows - 1) as nat,
            cols: (self.cols - 1) as nat,
            cells: Seq::new(
                ((self.rows - 1) * (self.cols - 1)) as nat,
                |k: int| self.cells[self.minor_source(i, j, k)],
            ),
        }
    }
}

/// A cell's position lies inside `cells`, and no other cell shares it.
pub proof fn offset_in_range<T>(g: Grid<T>, i: int, j: int)
    requires
        g.has(i, j),
    ensures
        0 <= g.offset(i, j) < g.rows * g.cols,
        g.offset(i, j) / (g.cols as int) == i,
        g.offset(i, j) % (g.cols as int) == j,
{
    let n = g.cols as int;
    assert(i * n + j < g.rows * n) by (nonlinear_arith)
        requires
            0 <= i < g.rows,
            0 <= j < n,
    ;
    assert(0 <= i * n) by (nonlinear_arith)
        requires
            0 <= i,
            0 <= n,
    ;
    vstd::arithmetic::div_mod::lemma_fundamental_div_mod_converse(i * n + j, n, i, j);
}

/// Every position inside `cells` is the position of one cell.
pub proof fn position_is_offset<T>(g: Grid<T>, k: int)
    requires
        0 <= k < g.rows * g.cols,
    ensures
        g.has(k / (g.cols as int), k % (g.cols as int)),
        g.offset(k / (g.cols as int), k % (g.cols as int)) == k,
{
    let n = g.cols as int;
    assert(n > 0) by (nonlinear_arith)
        requires
            0 <= k < g.rows * n,
            n >= 0,
    ;
    vstd::arithmetic::div_mod::lemma_fundamental_div_mod(k, n);
    vstd::arithmetic::div_mod::lemma_mod_bound(k, n);
    vstd::arithmetic::div_mod::lemma_div_pos_is_pos(k, n);
    let q = k / n;
    let r = k % n;
    assert(k == n * q + r);
    assert(q < g.rows) by (nonlinear_arith)
        requires
            k == n * q + r,
            0 <= r,
            k < g.rows * n,
            n > 0,
    ;
    assert(n * q == q * n) by (nonlinear_arith);
}

/// Where the cell `(r, c)` of a grid goes when row `i` and column `j` are
/// deleted: the position in the minor of a cell that survives, and the
/// position in the grid that the minor takes that cell from.
pub proof fn minor_position<T>(g: Grid<T>, i: int, j: int, r: int, c: int)
    requires
        g.has(i, j),
        g.has(r, c),
        r != i,
        c != j,
    ensures
        0 <= kept_below(r, i) * (g.cols - 1) + kept_below(c, j) < (g.rows - 1) * (g.cols - 1),
        g.minor_source(i, j, kept_below(r, i) * (g.cols - 1) + kept_below(c, j)) == g.offset(r, c),
{
    let w = g.cols - 1;
    let rr = kept_below(r, i);
    let cc = kept_below(c, j);
    assert(0 <= rr < g.rows - 1);
    assert(0 <= cc < w);
    assert(0 <= rr * w && rr * w + cc < (g.rows - 1) * w) by (nonlinear_arith)
        requires
            0 <= rr < g.rows - 1,
            0 <= cc < w,
    ;
    vstd::arithmetic::div_mod::lemma_fundamental_div_mod_converse(rr * w + cc, w, rr, cc);
    assert(skip(rr, i) == r);
    assert(skip(cc, j) == c);
}

/// The row and the column, in the minor, of the cell at position `k` of it.
proof fn minor_coords<T>(g: Grid<T>, k: int)
    requires
        g.rows > 0,
        g.cols > 0,
        0 <= k < (g.rows - 1) * (g.cols - 1),
    ensures
        g.cols > 1,
        0 <= k / (g.cols - 1) < g.rows - 1,
        0 <= k % (g.cols - 1) < g.cols - 1,
        k == (k / (g.cols - 1)) * (g.cols - 1) + k % (g.cols - 1),
{
    let w = g.cols - 1;
    assert(w > 0) by (nonlinear_arith)
        requires
            0 <= k < (g.rows - 1) * w,
            g.rows >= 1,
            w >= 0,
    ;
    vstd::arithmetic::div_mod::lemma_fundamental_div_mod(k, w);
    vstd::arithmetic::div_mod::lemma_mod_bound(k, w);
    vstd::arithmetic::div_mod::lemma_div_pos_is_pos(k, w);
    let q = k / w;
    let r = k % w;
    assert(q < g.rows - 1) by (nonlinear_arith)
        requires
            k == w * q + r,
            0 <= r,
            k < (g.rows - 1) * w,
            w > 0,
    ;
    assert(w * q == q * w) by (nonlinear_arith);
}

/// A minor takes each of its cells from a cell of the grid that lies neither
/// in the deleted row nor in the deleted column.
pub proof fn minor_takes_survivors<T>(g: Grid<T>, i: int, j: int, k: int)
    requires
        g.has(i, j),
        0 <= k < (g.rows - 1) * (g.cols - 1),
    ensures
        0 <= g.minor_source(i, j, k) < g.rows * g.cols,
        g.minor_source(i, j, k) / (g.cols as int) != i,
        g.minor_source(i, j, k) % (g.cols as int) != j,
{
    minor_coords(g, k);
    let w = g.cols - 1;
    offset_in_range(g, skip(k / w, i), skip(k % w, j));
}

/// A minor keeps its cells in the order in which they stand in the grid.
pub proof fn minor_keeps_order<T>(g: Grid<T>, i: int, j: int, k1: int, k2: int)
    requires
        g.has(i, j),
        0 <= k1 < k2 < (g.rows - 1) * (g.cols - 1),
    ensures
        g.minor_source(i, j, k1) < g.minor_source(i, j, k2),
{
    minor_coords(g, k1);
    minor_coords(g, k2);
    let w = g.cols - 1;
    let n = g.cols as int;
    let (r1, c1) = (k1 / w, k1 % w);
    let (r2, c2) = (k2 / w, k2 % w);
    assert(r1 <= r2) by (nonlinear_arith)
        requires
            k1 == r1 * w + c1,
            k2 == r2 * w + c2,
            k1 < k2,
            0 <= c1 < w,
            0 <= c2 < w,
    ;
    let (s1, d1) = (skip(r1, i), skip(c1, j));
    let (s2, d2) = (skip(r2, i), skip(c2, j));
    if r1 == r2 {
        assert(d1 < d2);
    } else {
        assert(s1 * n + d1 < s2 * n + d2) by (nonlinear_arith)
            requires
                s1 < s2,
                0 <= d1 < n,
                0 <= d2 < n,
        ;
    }
}

/// The cell `(r, c)` of a minor is the cell of the grid that stands in the
/// `r`-th of the rows that were kept and the `c`-th of the columns that were.
pub proof fn minor_at<T>(g: Grid<T>, i: int, j: int, r: int, c: int)
    requires
        g.has(i, j),
        g.minor(i, j).has(r, c),
    ensures
        g.minor(i, j).wf(),
        g.has(skip(r, i), skip(c, j)),
        g.minor(i, j).at(r, c) == g.at(skip(r, i), skip(c, j)),
{
    let m = g.minor(i, j);
    offset_in_range(m, r, c);
    assert((g.rows - 1) * (g.cols - 1) >= 0) by (nonlinear_arith)
        requires
            g.rows >= 1,
            g.cols >= 1,
    ;
}

} // verus!
