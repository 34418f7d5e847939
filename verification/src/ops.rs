//! Sum, product and determinant.

use vstd::prelude::*;
use core::ops::Add;
use core::ops::Mul;
use core::ops::Sub;
use crate::algebra::can_signed_sum;
use crate::algebra::det_defined;
use crate::algebra::dot_defined;
use crate::algebra::expansion_defined;
use crate::algebra::is_det;
use crate::algebra::is_dot;
use crate::algebra::is_expansion;
use crate::algebra::is_grid_product;
use crate::algebra::is_grid_sum;
use crate::algebra::is_signed_sum;
use crate::algebra::product_defined;
use crate::algebra::same_shape;
use crate::algebra::sum_defined;
use crate::algebra::transposed_shapes;
use crate::error::MatrixError;
use crate::grid::offset_in_range;
use crate::grid::Grid;
use crate::matrix::Matrix;
use crate::scalar::can_multiply;
use crate::scalar::can_subtract;
use crate::scalar::can_sum;
use crate::scalar::is_difference;
use crate::scalar::is_product;
use crate::scalar::is_sum;

verus! {

/// A fold that can be evaluated up to `n` pairs can be evaluated up to fewer.
pub proof fn dot_defined_below<T: Default + Add<Output = T> + Mul<Output = T>>(
    u: Seq<T>,
    v: Seq<T>,
    n: nat,
    k: nat,
)
    requires
        dot_defined(u, v, n),
        k <= n,
    ensures
        dot_defined(u, v, k),
    decreases n,
{
    if k < n {
        dot_defined_below(u, v, (n - 1) as nat, k);
    }
}

/// An expansion that can be evaluated up to `n` columns can be evaluated up
/// to fewer.
pub proof fn expansion_defined_below<
    T: Default + Add<Output = T> + Sub<Output = T> + Mul<Output = T>,
>(g: Grid<T>, n: nat, k: nat)
    requires
        expansion_defined(g, n),
        k <= n,
    ensures
        expansion_defined(g, k),
    decreases n,
{
    if k < n && g.rows > 0 {
        expansion_defined_below(g, (n - 1) as nat, k);
    }
}

/// The products of the pairs of `u` and `v`, added one after the other to zero.
fn dot<T: Copy + Default + Add<Output = T> + Mul<Output = T>>(u: &Vec<T>, v: &Vec<T>) -> (acc: T)
    requires
        u@.len() == v@.len(),
        dot_defined(u@, v@, u@.len()),
    ensures
        is_dot(u@, v@, u@.len(), acc),
{
    let mut acc = T::default();
    let mut k: usize = 0;
    while k < u.len()
        invariant
            k <= u@.len(),
            u@.len() == v@.len(),
            dot_defined(u@, v@, u@.len()),
            is_dot(u@, v@, k as nat, acc),
        decreases u@.len() - k,
    {
        let ghost upto = (k + 1) as nat;
        proof {
            dot_defined_below(u@, v@, u@.len(), upto);
        }
        let p = u[k] * v[k];
        assert(is_dot(u@, v@, (upto - 1) as nat, acc) && is_product(u@[upto - 1], v@[upto - 1], p));
        assert(can_sum(acc, p));
        let next = acc + p;
        assert(is_sum(acc, p, next));
        assert(is_dot(u@, v@, upto, next));
        acc = next;
        k += 1;
    }
    acc
}

impl<T: Copy + Add<Output = T>> Matrix<T> {
    /// The cell-by-cell sum of two matrices of one shape, or
    /// `DimensionMismatch` where the shapes differ.
    pub fn add(&self, other: &Matrix<T>) -> (r: Result<Matrix<T>, MatrixError>)
        requires
            same_shape(self@, other@) ==> sum_defined(self@, other@),
        ensures
            same_shape(self@, other@) ==> r is Ok && is_grid_sum(self@, other@, r->Ok_0@)
                && r->Ok_0@.wf(),
            !same_shape(self@, other@) ==> r is Err && r->Err_0 == MatrixError::DimensionMismatch,
    {
        if self.rows() != other.rows() || self.cols() != other.cols() {
            return Err(MatrixError::DimensionMismatch);
        }
        let left = self.entries();
        let right = other.entries();
        let mut sums: Vec<T> = Vec::new();
        let mut k: usize = 0;
        while k < left.len()
            invariant
                k <= left@.len(),
                left@ == self@.cells,
                right@ == other@.cells,
                left@.len() == right@.len(),
                sum_defined(self@, other@),
                sums@.len() == k,
                forall|p: int| 0 <= p < k ==> is_sum(left@[p], right@[p], #[trigger] sums@[p]),
            decreases left@.len() - k,
        {
            sums.push(left[k] + right[k]);
            k += 1;
        }
        Matrix::from_vec(self.rows(), self.cols(), sums)
    }
}

impl<T: Copy + Default + Add<Output = T> + Mul<Output = T>> Matrix<T> {
    /// The product of two matrices of which each has the shape of the other's
    /// transpose, or `DimensionMismatch` where the shapes are not so related.
    pub fn mul(&self, other: &Matrix<T>) -> (r: Result<Matrix<T>, MatrixError>)
        requires
            transposed_shapes(self@, other@) ==> product_defined(self@, other@),
        ensures
            transposed_shapes(self@, other@) ==> r is Ok && is_grid_product(
                self@,
                other@,
                r->Ok_0@,
            ),
            !transposed_shapes(self@, other@) ==> r is Err && r->Err_0
                == MatrixError::DimensionMismatch,
    {
        let m = self.rows();
        let n = other.cols();
        if m != n || self.cols() != other.rows() {
            return Err(MatrixError::DimensionMismatch);
        }
        let ghost a = self@;
        let ghost b = other@;
        let mut cells: Vec<T> = Vec::new();
        let mut i: u32 = 0;
        assert(0 * n == 0) by (nonlinear_arith);
        while i < m
            invariant
                a == self@,
                b == other@,
                transposed_shapes(a, b),
                product_defined(a, b),
                m == a.rows,
                n == b.cols,
                i <= m,
                cells@.len() == i * n,
                forall|k: int|
                    0 <= k < cells@.len() ==> is_dot(
                        a.row(k / (n as int)),
                        b.col(k % (n as int)),
                        a.cols,
                        #[trigger] cells@[k],
                    ),
            decreases m - i,
        {
            let row = self.get_row_vec(i as usize);
            let mut j: u32 = 0;
            while j < n
                invariant
                    a == self@,
                    b == other@,
                    transposed_shapes(a, b),
                    product_defined(a, b),
                    m == a.rows,
                    n == b.cols,
                    i < m,
                    j <= n,
                    row@ == a.row(i as int),
                    cells@.len() == i * n + j,
                    forall|k: int|
                        0 <= k < cells@.len() ==> is_dot(
                            a.row(k / (n as int)),
                            b.col(k % (n as int)),
                            a.cols,
                            #[trigger] cells@[k],
                        ),
                decreases n - j,
            {
                let col = other.get_col_vec(j as usize);
                proof {
                    assert(dot_defined(a.row(i as int), b.col(j as int), a.cols));
                    assert(0 <= i * n) by (nonlinear_arith);
                    vstd::arithmetic::div_mod::lemma_fundamental_div_mod_converse(
                        i * n + j,
                        n as int,
                        i as int,
                        j as int,
                    );
                }
                let cell = dot(&row, &col);
                cells.push(cell);
                j += 1;
            }
            assert((i + 1) * n == i * n + n) by (nonlinear_arith);
            i += 1;
        }
        let product = Matrix::from_vec(m, n, cells);
        proof {
            let c = product->Ok_0@;
            assert forall|r: int, s: int| 0 <= r < c.rows && 0 <= s < c.cols implies is_dot(
                a.row(r),
                b.col(s),
                a.cols,
                #[trigger] c.at(r, s),
            ) by {
                offset_in_range(c, r, s);
            }
        }
        product
    }
}

impl<T: Copy + Default + Add<Output = T> + Sub<Output = T> + Mul<Output = T>> Matrix<T> {
    /// The determinant of a square matrix, by expansion along row 0, or
    /// `DimensionMismatch` where the matrix is not square.
    pub fn det(&self) -> (r: Result<T, MatrixError>)
        requires
            self@.rows == self@.cols ==> det_defined(self@),
        ensures
            self@.rows == self@.cols ==> r is Ok && is_det(self@, r->Ok_0),
            self@.rows != self@.cols ==> r is Err && r->Err_0 == MatrixError::DimensionMismatch,
        decreases self@.rows,
    {
        let n = self.rows();
        if n != self.cols() {
            return Err(MatrixError::DimensionMismatch);
        }
        let cells = self.entries();
        let ghost g = self@;
        assert(cells@.len() == n * n);
        if n == 0 {
            Ok(T::default())
        } else if n == 1 {
            assert(n * n == 1) by (nonlinear_arith)
                requires
                    n == 1,
            ;
            Ok(cells[0])
        } else if n == 2 {
            assert(n * n == 4) by (nonlinear_arith)
                requires
                    n == 2,
            ;
            assert(g.at(0, 0) == cells@[0] && g.at(0, 1) == cells@[1]);
            assert(g.at(1, 0) == cells@[2] && g.at(1, 1) == cells@[3]);
            let p = cells[0] * cells[3];
            let q = cells[1] * cells[2];
            assert(can_subtract(p, q));
            let d = p - q;
            assert(is_difference(p, q, d));
            Ok(d)
        } else {
            let mut acc = T::default();
            let mut col: u32 = 0;
            while col < n
                invariant
                    g == self@,
                    cells@ == g.cells,
                    g.wf(),
                    n == g.rows,
                    n == g.cols,
                    n >= 3,
                    col <= n,
                    expansion_defined(g, g.cols),
                    is_expansion(g, col as nat, acc),
                decreases n - col,
            {
                let ghost upto = (col + 1) as nat;
                proof {
                    expansion_defined_below(g, g.cols, upto);
                    assert(g.has(0, col as int));
                    offset_in_range(g, 0, col as int);
                    assert(is_expansion(g, (upto - 1) as nat, acc));
                }
                let entry = cells[col as usize];
                assert(entry == g.at(0, upto - 1));
                let minor = self.sub_matrix(0, col).unwrap();
                let minor_det = minor.det().unwrap();
                assert(can_multiply(entry, minor_det));
                let term = entry * minor_det;
                assert(is_product(g.at(0, upto - 1), minor_det, term));
                assert(can_signed_sum(upto - 1, acc, term));
                let next = if col % 2 == 0 {
                    acc + term
                } else {
                    acc - term
                };
                assert(is_signed_sum(upto - 1, acc, term, next));
                assert(is_expansion(g, upto, next));
                acc = next;
                col += 1;
            }
            Ok(acc)
        }
    }
}

} // verus!
