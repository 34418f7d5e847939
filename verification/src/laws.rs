//! What holds of sums, products and determinants whatever the element type,
//! given what its own arithmetic is known to obey.

use vstd::prelude::*;
use core::ops::Add;
use core::ops::Mul;
use core::ops::Sub;
use crate::algebra::det_defined;
use crate::algebra::dot_defined;
use crate::algebra::expansion_defined;
use crate::algebra::is_det;
use crate::algebra::is_dot;
use crate::algebra::is_expansion;
use crate::algebra::is_grid_product;
use crate::algebra::is_grid_sum;
use crate::algebra::is_signed_sum;
use crate::algebra::product_defined;
use crate::algebra::same_shape;
use crate::algebra::sum_defined;
use crate::grid::position_is_offset;
use crate::grid::Grid;
use crate::scalar::can_multiply;
use crate::scalar::can_subtract;
use crate::scalar::can_sum;
use crate::scalar::is_difference;
use crate::scalar::is_product;
use crate::scalar::is_sum;
use crate::scalar::is_zero;

verus! {

/// Two scalars have one sum, whichever of them comes first.
pub open spec fn sum_is_symmetric<T: Add<Output = T>>() -> bool {
    forall|x: T, y: T, s: T, t: T| #[trigger] is_sum(x, y, s) && #[trigger] is_sum(y, x, t) ==> s == t
}

/// The element type has one zero.
pub open spec fn zero_is_unique<T: Default>() -> bool {
    forall|x: T, y: T| #[trigger] is_zero(x) && #[trigger] is_zero(y) ==> x == y
}

/// Two scalars, in one order, have one sum.
pub open spec fn sum_is_unique<T: Add<Output = T>>() -> bool {
    forall|x: T, y: T, s: T, t: T| #[trigger] is_sum(x, y, s) && #[trigger] is_sum(x, y, t) ==> s == t
}

/// Two scalars, in one order, have one difference.
pub open spec fn difference_is_unique<T: Sub<Output = T>>() -> bool {
    forall|x: T, y: T, s: T, t: T| #[trigger]
        is_difference(x, y, s) && #[trigger] is_difference(x, y, t) ==> s == t
}

/// Two scalars, in one order, have one product.
pub open spec fn product_is_unique<T: Mul<Output = T>>() -> bool {
    forall|x: T, y: T, s: T, t: T| #[trigger]
        is_product(x, y, s) && #[trigger] is_product(x, y, t) ==> s == t
}

/// Addition of matrices is commutative: where the sum of two scalars is the
/// same in either order, a sum of `a` and `b` and a sum of `b` and `a` are
/// the same grid.
pub proof fn grid_sum_commutes<T: Add<Output = T>>(a: Grid<T>, b: Grid<T>, c: Grid<T>, d: Grid<T>)
    requires
        sum_is_symmetric::<T>(),
        same_shape(a, b),
        a.cells.len() == b.cells.len(),
        is_grid_sum(a, b, c),
        is_grid_sum(b, a, d),
    ensures
        c == d,
{
    assert forall|k: int| 0 <= k < c.cells.len() implies c.cells[k] == d.cells[k] by {
        assert(is_sum(a.cells[k], b.cells[k], c.cells[k]));
        assert(is_sum(b.cells[k], a.cells[k], d.cells[k]));
    }
    assert(c.cells =~= d.cells);
}

/// Where two scalars have one sum, two grids have one sum.
pub proof fn grid_sum_is_unique<T: Add<Output = T>>(a: Grid<T>, b: Grid<T>, c: Grid<T>, d: Grid<T>)
    requires
        sum_is_unique::<T>(),
        is_grid_sum(a, b, c),
        is_grid_sum(a, b, d),
    ensures
        c == d,
{
    assert forall|k: int| 0 <= k < c.cells.len() implies c.cells[k] == d.cells[k] by {
        assert(is_sum(a.cells[k], b.cells[k], c.cells[k]));
        assert(is_sum(a.cells[k], b.cells[k], d.cells[k]));
    }
    assert(c.cells =~= d.cells);
}

/// Where the scalar operations each have one result, so has the dot product.
pub proof fn dot_is_unique<T: Default + Add<Output = T> + Mul<Output = T>>(
    u: Seq<T>,
    v: Seq<T>,
    k: nat,
    x: T,
    y: T,
)
    requires
        zero_is_unique::<T>(),
        sum_is_unique::<T>(),
        product_is_unique::<T>(),
        is_dot(u, v, k, x),
        is_dot(u, v, k, y),
    ensures
        x == y,
    decreases k,
{
    if k > 0 {
        let (xp, xq) = choose|prev: T, p: T|
            is_dot(u, v, (k - 1) as nat, prev) && is_product(u[k - 1], v[k - 1], p) && is_sum(
                prev,
                p,
                x,
            );
        let (yp, yq) = choose|prev: T, p: T|
            is_dot(u, v, (k - 1) as nat, prev) && is_product(u[k - 1], v[k - 1], p) && is_sum(
                prev,
                p,
                y,
            );
        dot_is_unique(u, v, (k - 1) as nat, xp, yp);
        assert(xq == yq);
    }
}

/// Where the scalar operations each have one result, two grids have one
/// product.
pub proof fn grid_product_is_unique<T: Default + Add<Output = T> + Mul<Output = T>>(
    a: Grid<T>,
    b: Grid<T>,
    c: Grid<T>,
    d: Grid<T>,
)
    requires
        zero_is_unique::<T>(),
        sum_is_unique::<T>(),
        product_is_unique::<T>(),
        is_grid_product(a, b, c),
        is_grid_product(a, b, d),
    ensures
        c == d,
{
    assert forall|k: int| 0 <= k < c.cells.len() implies c.cells[k] == d.cells[k] by {
        position_is_offset(c, k);
        let i = k / (c.cols as int);
        let j = k % (c.cols as int);
        assert(is_dot(a.row(i), b.col(j), a.cols, c.at(i, j)));
        assert(is_dot(a.row(i), b.col(j), a.cols, d.at(i, j)));
        dot_is_unique(a.row(i), b.col(j), a.cols, c.at(i, j), d.at(i, j));
    }
    assert(c.cells =~= d.cells);
}

/// Where the scalar operations each have one result, a grid has one
/// determinant.
pub proof fn det_is_unique<T: Default + Add<Output = T> + Sub<Output = T> + Mul<Output = T>>(
    g: Grid<T>,
    x: T,
    y: T,
)
    requires
        zero_is_unique::<T>(),
        sum_is_unique::<T>(),
        difference_is_unique::<T>(),
        product_is_unique::<T>(),
        is_det(g, x),
        is_det(g, y),
    ensures
        x == y,
    decreases g.rows, g.cols + 1,
{
    if g.rows == 2 {
        let (xp, xq) = choose|p: T, q: T|
            is_product(g.at(0, 0), g.at(1, 1), p) && is_product(g.at(0, 1), g.at(1, 0), q)
                && is_difference(p, q, x);
        let (yp, yq) = choose|p: T, q: T|
            is_product(g.at(0, 0), g.at(1, 1), p) && is_product(g.at(0, 1), g.at(1, 0), q)
                && is_difference(p, q, y);
        assert(xp == yp);
        assert(xq == yq);
    } else if g.rows > 2 {
        expansion_is_unique(g, g.cols, x, y);
    }
}

/// Where the scalar operations each have one result, the first `k` columns
/// of an expansion add up to one value.
pub proof fn expansion_is_unique<
    T: Default + Add<Output = T> + Sub<Output = T> + Mul<Output = T>,
>(g: Grid<T>, k: nat, x: T, y: T)
    requires
        zero_is_unique::<T>(),
        sum_is_unique::<T>(),
        difference_is_unique::<T>(),
        product_is_unique::<T>(),
        is_expansion(g, k, x),
        is_expansion(g, k, y),
    ensures
        x == y,
    decreases g.rows, k,
{
    if k > 0 && g.rows > 0 {
        let (xp, xm, xt) = choose|prev: T, minor_det: T, term: T|
            #![trigger is_product(g.at(0, k - 1), minor_det, term), is_signed_sum(k - 1, prev, term, x)]
            is_expansion(g, (k - 1) as nat, prev) && is_det(g.minor(0, k - 1), minor_det)
                && is_product(g.at(0, k - 1), minor_det, term) && is_signed_sum(
                k - 1,
                prev,
                term,
                x,
            );
        let (yp, ym, yt) = choose|prev: T, minor_det: T, term: T|
            #![trigger is_product(g.at(0, k - 1), minor_det, term), is_signed_sum(k - 1, prev, term, y)]
            is_expansion(g, (k - 1) as nat, prev) && is_det(g.minor(0, k - 1), minor_det)
                && is_product(g.at(0, k - 1), minor_det, term) && is_signed_sum(
                k - 1,
                prev,
                term,
                y,
            );
        expansion_is_unique(g, (k - 1) as nat, xp, yp);
        det_is_unique(g.minor(0, k - 1), xm, ym);
        assert(xt == yt);
    }
}

/// Any two scalars can be added.
pub open spec fn sum_is_total<T: Add<Output = T>>() -> bool {
    forall|x: T, y: T| #[trigger] can_sum(x, y)
}

/// Any scalar can be subtracted from any other.
pub open spec fn difference_is_total<T: Sub<Output = T>>() -> bool {
    forall|x: T, y: T| #[trigger] can_subtract(x, y)
}

/// Any two scalars can be multiplied.
pub open spec fn product_is_total<T: Mul<Output = T>>() -> bool {
    forall|x: T, y: T| #[trigger] can_multiply(x, y)
}

/// Where any two scalars can be added, any two grids of one shape can.
pub proof fn total_sum_defined<T: Add<Output = T>>(a: Grid<T>, b: Grid<T>)
    requires
        sum_is_total::<T>(),
    ensures
        sum_defined(a, b),
{
}

/// Where the scalar operations are total, any dot product can be evaluated.
pub proof fn total_dot_defined<T: Default + Add<Output = T> + Mul<Output = T>>(
    u: Seq<T>,
    v: Seq<T>,
    k: nat,
)
    requires
        sum_is_total::<T>(),
        product_is_total::<T>(),
    ensures
        dot_defined(u, v, k),
    decreases k,
{
    if k > 0 {
        total_dot_defined(u, v, (k - 1) as nat);
    }
}

/// Where the scalar operations are total, any product of grids can be
/// evaluated.
pub proof fn total_product_defined<T: Default + Add<Output = T> + Mul<Output = T>>(
    a: Grid<T>,
    b: Grid<T>,
)
    requires
        sum_is_total::<T>(),
        product_is_total::<T>(),
    ensures
        product_defined(a, b),
{
    assert forall|i: int, j: int| 0 <= i < a.rows && 0 <= j < b.cols implies dot_defined(
        #[trigger] a.row(i),
        #[trigger] b.col(j),
        a.cols,
    ) by {
        total_dot_defined(a.row(i), b.col(j), a.cols);
    }
}

/// Where the scalar operations are total, any determinant can be evaluated.
pub proof fn total_det_defined<T: Default + Add<Output = T> + Sub<Output = T> + Mul<Output = T>>(
    g: Grid<T>,
)
    requires
        sum_is_total::<T>(),
        difference_is_total::<T>(),
        product_is_total::<T>(),
    ensures
        det_defined(g),
    decreases g.rows, g.cols + 1,
{
    if g.rows > 2 {
        total_expansion_defined(g, g.cols);
    }
}

/// Where the scalar operations are total, any expansion can be evaluated.
pub proof fn total_expansion_defined<
    T: Default + Add<Output = T> + Sub<Output = T> + Mul<Output = T>,
>(g: Grid<T>, k: nat)
    requires
        sum_is_total::<T>(),
        difference_is_total::<T>(),
        product_is_total::<T>(),
    ensures
        expansion_defined(g, k),
    decreases g.rows, k,
{
    if k > 0 && g.rows > 0 {
        total_expansion_defined(g, (k - 1) as nat);
        total_det_defined(g.minor(0, k - 1));
    }
}

/// The 64-bit signed integers meet what the laws above ask of an element
/// type: one zero, and one result of each operation, the sum the same in
/// either order.
pub proof fn signed_integers_are_lawful()
    ensures
        zero_is_unique::<i64>(),
        sum_is_unique::<i64>(),
        sum_is_symmetric::<i64>(),
        difference_is_unique::<i64>(),
        product_is_unique::<i64>(),
{
}

} // verus!
