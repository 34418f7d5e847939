use dense_matrix::error::MatrixError;
use dense_matrix::matrix::Matrix;

fn grid(m: u32, n: u32, cells: &[f64]) -> Matrix<f64> {
    Matrix::from_vec(m, n, cells.to_vec()).unwrap()
}

#[test]
fn add_sums_cell_by_cell() {
    let a = grid(2, 2, &[1.0, 2.0, 3.0, 4.0]);
    let b = grid(2, 2, &[5.0, 6.0, 7.0, 8.0]);
    let c = a.add(&b).unwrap();
    assert_eq!((c.rows(), c.cols()), (2, 2));
    assert_eq!(c.entries(), &vec![6.0, 8.0, 10.0, 12.0]);
}

#[test]
fn add_is_commutative() {
    let a = grid(2, 3, &[1.5, -2.0, 3.25, 4.0, 0.1, 1e10]);
    let b = grid(2, 3, &[0.2, 6.0, -7.5, 8.0, 0.7, 3.0]);
    let ab = a.add(&b).unwrap();
    let ba = b.add(&a).unwrap();
    assert_eq!(ab.entries(), ba.entries());
    assert_eq!(ab.get(0, 0), Ok(1.5 + 0.2));
    assert_eq!(ab.get(1, 1), Ok(0.1 + 0.7));
}

#[test]
fn add_leaves_the_operands_alone() {
    let a = grid(1, 2, &[1.0, 2.0]);
    let b = grid(1, 2, &[10.0, 20.0]);
    let mut c = a.add(&b).unwrap();
    c.set(0, 0, -1.0).unwrap();
    assert_eq!(a.entries(), &vec![1.0, 2.0]);
    assert_eq!(b.entries(), &vec![10.0, 20.0]);
}

#[test]
fn add_of_differing_shapes_is_a_dimension_mismatch() {
    let a = grid(2, 3, &[0.0; 6]);
    let b = grid(3, 2, &[0.0; 6]);
    assert!(matches!(a.add(&b), Err(MatrixError::DimensionMismatch)));
    let c = grid(2, 2, &[0.0; 4]);
    assert!(matches!(a.add(&c), Err(MatrixError::DimensionMismatch)));
    let d = grid(1, 3, &[0.0; 3]);
    assert!(matches!(a.add(&d), Err(MatrixError::DimensionMismatch)));
}

#[test]
fn add_of_empty_matrices_is_empty() {
    let a: Matrix<f64> = Matrix::new(0, 4);
    let b: Matrix<f64> = Matrix::new(0, 4);
    let c = a.add(&b).unwrap();
    assert_eq!((c.rows(), c.cols()), (0, 4));
    assert!(c.entries().is_empty());
}

#[test]
fn mul_of_two_by_two() {
    let a = grid(2, 2, &[1.0, 2.0, 3.0, 4.0]);
    let b = grid(2, 2, &[5.0, 6.0, 7.0, 8.0]);
    let c = a.mul(&b).unwrap();
    assert_eq!((c.rows(), c.cols()), (2, 2));
    assert_eq!(c.entries(), &vec![19.0, 22.0, 43.0, 50.0]);
}

#[test]
fn mul_is_not_commutative() {
    let a = grid(2, 2, &[1.0, 2.0, 3.0, 4.0]);
    let b = grid(2, 2, &[5.0, 6.0, 7.0, 8.0]);
    let c = b.mul(&a).unwrap();
    assert_eq!(c.entries(), &vec![23.0, 34.0, 31.0, 46.0]);
}

#[test]
fn mul_of_a_row_and_a_column() {
    let a = grid(1, 2, &[1.0, 2.0]);
    let b = grid(2, 1, &[3.0, 4.0]);
    let c = a.mul(&b).unwrap();
    assert_eq!((c.rows(), c.cols()), (1, 1));
    assert_eq!(c.entries(), &vec![11.0]);
}

#[test]
fn mul_of_a_column_and_a_row() {
    let a = grid(2, 1, &[3.0, 4.0]);
    let b = grid(1, 2, &[1.0, 2.0]);
    let c = a.mul(&b).unwrap();
    assert_eq!((c.rows(), c.cols()), (2, 2));
    assert_eq!(c.entries(), &vec![3.0, 6.0, 4.0, 8.0]);
}

#[test]
fn mul_of_two_by_three_and_three_by_two() {
    let a = grid(2, 3, &[1.0, 2.0, 3.0, 4.0, 5.0, 6.0]);
    let b = grid(3, 2, &[7.0, 8.0, 9.0, 10.0, 11.0, 12.0]);
    let c = a.mul(&b).unwrap();
    assert_eq!((c.rows(), c.cols()), (2, 2));
    assert_eq!(c.entries(), &vec![58.0, 64.0, 139.0, 154.0]);
}

#[test]
fn mul_folds_from_the_left_onto_zero() {
    let a = grid(1, 3, &[1e16, 1.0, -1e16]);
    let b = grid(3, 1, &[1.0, 1.0, 1.0]);
    let c = a.mul(&b).unwrap();
    assert_eq!(c.entries(), &vec![((0.0 + 1e16) + 1.0) + -1e16]);
    assert_eq!(c.entries(), &vec![0.0]);
}

#[test]
fn mul_needs_transposed_shapes() {
    let a = grid(2, 3, &[0.0; 6]);
    let b = grid(3, 4, &[0.0; 12]);
    assert!(matches!(a.mul(&b), Err(MatrixError::DimensionMismatch)));
    let c = grid(2, 3, &[0.0; 6]);
    assert!(matches!(a.mul(&c), Err(MatrixError::DimensionMismatch)));
    let d = grid(4, 2, &[0.0; 8]);
    assert!(matches!(a.mul(&d), Err(MatrixError::DimensionMismatch)));
}

#[test]
fn mul_without_inner_cells_gives_zeros() {
    let a: Matrix<f64> = Matrix::new(2, 0);
    let b: Matrix<f64> = Matrix::new(0, 2);
    let c = a.mul(&b).unwrap();
    assert_eq!((c.rows(), c.cols()), (2, 2));
    assert_eq!(c.entries(), &vec![0.0; 4]);
}

#[test]
fn integers_work_as_elements() {
    let a = Matrix::from_vec(2, 2, vec![1i64, 2, 3, 4]).unwrap();
    let b = Matrix::from_vec(2, 2, vec![5i64, 6, 7, 8]).unwrap();
    assert_eq!(a.add(&b).unwrap().entries(), &vec![6, 8, 10, 12]);
    assert_eq!(a.mul(&b).unwrap().entries(), &vec![19, 22, 43, 50]);
    assert_eq!(a.det(), Ok(-2));
}
