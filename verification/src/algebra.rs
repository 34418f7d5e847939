//! What a sum, a product and a determinant of grids are, over the arithmetic
//! of the element type, and on which grids each can be evaluated.
//!
//! The relations follow the order in which the operations are carried out: a
//! dot product is folded from the left onto zero, a determinant is expanded
//! along row 0.

use vstd::prelude::*;
use core::ops::Add;
use core::ops::Mul;
use core::ops::Sub;
use crate::grid::Grid;
use crate::scalar::can_multiply;
use crate::scalar::can_subtract;
use crate::scalar::can_sum;
use crate::scalar::is_difference;
use crate::scalar::is_product;
use crate::scalar::is_sum;
use crate::scalar::is_zero;

verus! {

/// The two grids have the same number of rows and of columns.
pub open spec fn same_shape<T>(a: Grid<T>, b: Grid<T>) -> bool {
    a.rows == b.rows && a.cols == b.cols
}

/// Each cell of `a` can be added to the cell of `b` at the same position.
pub open spec fn sum_defined<T: Add<Output = T>>(a: Grid<T>, b: Grid<T>) -> bool {
    forall|k: int| 0 <= k < a.cells.len() ==> can_sum(#[trigger] a.cells[k], b.cells[k])
}

/// `c` has the shape of `a`, and each of its cells is a sum of the cells of
/// `a` and `b` at the same position.
pub open spec fn is_grid_sum<T: Add<Output = T>>(a: Grid<T>, b: Grid<T>, c: Grid<T>) -> bool {
    &&& same_shape(a, c)
    &&& c.cells.len() == a.cells.len()
    &&& forall|k: int|
        0 <= k < a.cells.len() ==> is_sum(a.cells[k], b.cells[k], #[trigger] c.cells[k])
}

/// `acc` is a value that is left when the products of the first `k` pairs of
/// `u` and `v` are added, one after the other, to zero.
pub open spec fn is_dot<T: Default + Add<Output = T> + Mul<Output = T>>(
    u: Seq<T>,
    v: Seq<T>,
    k: nat,
    acc: T,
) -> bool
    decreases k,
{
    if k == 0 {
        is_zero(acc)
    } else {
        exists|prev: T, p: T|
            #![trigger is_product(u[k - 1], v[k - 1], p), is_sum(prev, p, acc)]
            is_dot(u, v, (k - 1) as nat, prev) && is_product(u[k - 1], v[k - 1], p) && is_sum(
                prev,
                p,
                acc,
            )
    }
}

/// Every multiplication and addition that folding the first `k` pairs of `u`
/// and `v` comes to can be evaluated.
pub open spec fn dot_defined<T: Default + Add<Output = T> + Mul<Output = T>>(
    u: Seq<T>,
    v: Seq<T>,
    k: nat,
) -> bool
    decreases k,
{
    k > 0 ==> {
        &&& dot_defined(u, v, (k - 1) as nat)
        &&& can_multiply(u[k - 1], v[k - 1])
        &&& forall|prev: T, p: T|
            #![trigger can_sum(prev, p)]
            is_dot(u, v, (k - 1) as nat, prev) && is_product(u[k - 1], v[k - 1], p) ==> can_sum(
                prev,
                p,
            )
    }
}

/// `a` has as many rows as `b` has columns, and as many columns as `b` has rows.
pub open spec fn transposed_shapes<T>(a: Grid<T>, b: Grid<T>) -> bool {
    a.rows == b.cols && a.cols == b.rows
}

/// The dot product of each row of `a` with each column of `b` can be evaluated.
pub open spec fn product_defined<T: Default + Add<Output = T> + Mul<Output = T>>(
    a: Grid<T>,
    b: Grid<T>,
) -> bool {
    forall|i: int, j: int|
        0 <= i < a.rows && 0 <= j < b.cols ==> dot_defined(
            #[trigger] a.row(i),
            #[trigger] b.col(j),
            a.cols,
        )
}

/// `c` has the rows of `a` and the columns of `b`, and its cell `(i, j)` is a
/// dot product of row `i` of `a` and column `j` of `b`.
pub open spec fn is_grid_product<T: Default + Add<Output = T> + Mul<Output = T>>(
    a: Grid<T>,
    b: Grid<T>,
    c: Grid<T>,
) -> bool {
    &&& c.rows == a.rows
    &&& c.cols == b.cols
    &&& c.wf()
    &&& forall|i: int, j: int|
        0 <= i < c.rows && 0 <= j < c.cols ==> is_dot(
            a.row(i),
            b.col(j),
            a.cols,
            #[trigger] c.at(i, j),
        )
}

/// `acc` comes from `prev` by adding the term of column `col` of an
/// expansion, which carries the sign `(-1)^col`.
pub open spec fn is_signed_sum<T: Add<Output = T> + Sub<Output = T>>(
    col: int,
    prev: T,
    term: T,
    acc: T,
) -> bool {
    if col % 2 == 0 {
        is_sum(prev, term, acc)
    } else {
        is_difference(prev, term, acc)
    }
}

/// The term of column `col` can be added to `prev` with its sign.
pub open spec fn can_signed_sum<T: Add<Output = T> + Sub<Output = T>>(
    col: int,
    prev: T,
    term: T,
) -> bool {
    if col % 2 == 0 {
        can_sum(prev, term)
    } else {
        can_subtract(prev, term)
    }
}

/// `d` is a determinant of `g`: zero for the empty grid, the cell of a
/// 1-by-1 grid, `a*d - b*c` for a 2-by-2 grid, and for a larger one the
/// expansion along row 0. The grid is taken to have as many columns as rows.
pub open spec fn is_det<T: Default + Add<Output = T> + Sub<Output = T> + Mul<Output = T>>(
    g: Grid<T>,
    d: T,
) -> bool
    decreases g.rows, g.cols + 1,
{
    if g.rows == 0 {
        is_zero(d)
    } else if g.rows == 1 {
        d == g.cells[0]
    } else if g.rows == 2 {
        exists|p: T, q: T|
            #![trigger is_difference(p, q, d)]
            is_product(g.at(0, 0), g.at(1, 1), p) && is_product(g.at(0, 1), g.at(1, 0), q)
                && is_difference(p, q, d)
    } else {
        is_expansion(g, g.cols, d)
    }
}

/// `acc` is a value that is left when the terms of the first `k` columns of
/// the expansion of `g` along row 0 are added, one after the other and each
/// with its sign, to zero. The term of column `c` is the cell `(0, c)` times a
/// determinant of the minor without row 0 and column `c`.
pub open spec fn is_expansion<T: Default + Add<Output = T> + Sub<Output = T> + Mul<Output = T>>(
    g: Grid<T>,
    k: nat,
    acc: T,
) -> bool
    decreases g.rows, k,
{
    if k == 0 || g.rows == 0 {
        is_zero(acc)
    } else {
        exists|prev: T, minor_det: T, term: T|
            #![trigger is_product(g.at(0, k - 1), minor_det, term), is_signed_sum(k - 1, prev, term, acc)]
            is_expansion(g, (k - 1) as nat, prev) && is_det(g.minor(0, k - 1), minor_det)
                && is_product(g.at(0, k - 1), minor_det, term) && is_signed_sum(
                k - 1,
                prev,
                term,
                acc,
            )
    }
}

/// Every operation that a determinant of `g` comes to can be evaluated.
pub open spec fn det_defined<T: Default + Add<Output = T> + Sub<Output = T> + Mul<Output = T>>(
    g: Grid<T>,
) -> bool
    decreases g.rows, g.cols + 1,
{
    if g.rows <= 1 {
        true
    } else if g.rows == 2 {
        &&& can_multiply(g.at(0, 0), g.at(1, 1))
        &&& can_multiply(g.at(0, 1), g.at(1, 0))
        &&& forall|p: T, q: T|
            #![trigger can_subtract(p, q)]
            is_product(g.at(0, 0), g.at(1, 1), p) && is_product(g.at(0, 1), g.at(1, 0), q)
                ==> can_subtract(p, q)
    } else {
        expansion_defined(g, g.cols)
    }
}

/// Every operation that the first `k` columns of the expansion of `g` along
/// row 0 come to can be evaluated.
pub open spec fn expansion_defined<
    T: Default + Add<Output = T> + Sub<Output = T> + Mul<Output = T>,
>(g: Grid<T>, k: nat) -> bool
    decreases g.rows, k,
{
    k > 0 && g.rows > 0 ==> {
        &&& expansion_defined(g, (k - 1) as nat)
        &&& det_defined(g.minor(0, k - 1))
        &&& forall|minor_det: T|
            is_det(g.minor(0, k - 1), minor_det) ==> #[trigger] can_multiply(
                g.at(0, k - 1),
                minor_det,
            )
        &&& forall|prev: T, minor_det: T, term: T|
            #![trigger is_product(g.at(0, k - 1), minor_det, term), can_signed_sum(k - 1, prev, term)]
            is_expansion(g, (k - 1) as nat, prev) && is_det(g.minor(0, k - 1), minor_det)
                && is_product(g.at(0, k - 1), minor_det, term) ==> can_signed_sum(
                k - 1,
                prev,
                term,
            )
    }
}

} // verus!
