use dense_matrix::error::MatrixError;
use dense_matrix::matrix::Matrix;

fn square(n: u32, cells: &[f64]) -> Matrix<f64> {
    Matrix::from_vec(n, n, cells.to_vec()).unwrap()
}

/// Gaussian elimination with partial pivoting, the sign following the swaps.
fn det_by_elimination(n: usize, cells: &[f64]) -> f64 {
    let mut a = cells.to_vec();
    let mut det = 1.0;
    for k in 0..n {
        let mut pivot = k;
        for r in (k + 1)..n {
            if a[r * n + k].abs() > a[pivot * n + k].abs() {
                pivot = r;
            }
        }
        if a[pivot * n + k] == 0.0 {
            return 0.0;
        }
        if pivot != k {
            for c in 0..n {
                a.swap(k * n + c, pivot * n + c);
            }
            det = -det;
        }
        det *= a[k * n + k];
        for r in (k + 1)..n {
            let factor = a[r * n + k] / a[k * n + k];
            for c in k..n {
                a[r * n + c] -= factor * a[k * n + c];
            }
        }
    }
    det
}

#[test]
fn det_of_two_by_two() {
    let m = square(2, &[1.0, 2.0, 3.0, 4.0]);
    assert_eq!(m.det(), Ok(-2.0));
}

#[test]
fn det_of_identity_is_one() {
    let m = square(3, &[1.0, 0.0, 0.0, 0.0, 1.0, 0.0, 0.0, 0.0, 1.0]);
    assert_eq!(m.det(), Ok(1.0));
}

#[test]
fn det_of_the_empty_matrix_is_zero() {
    let m: Matrix<f64> = Matrix::new(0, 0);
    assert_eq!(m.det(), Ok(0.0));
}

#[test]
fn det_of_a_single_cell_is_the_cell() {
    let m = square(1, &[-7.25]);
    assert_eq!(m.det(), Ok(-7.25));
}

#[test]
fn det_of_three_by_three() {
    let m = square(3, &[2.0, -3.0, 1.0, 2.0, 0.0, -1.0, 1.0, 4.0, 5.0]);
    assert_eq!(m.det(), Ok(49.0));
}

#[test]
fn det_of_three_by_three_follows_the_expansion() {
    let c = [1.5, 2.25, -3.0, 0.5, 4.0, 6.5, -1.25, 2.0, 8.0];
    let m = square(3, &c);
    let minor0 = c[4] * c[8] - c[5] * c[7];
    let minor1 = c[3] * c[8] - c[5] * c[6];
    let minor2 = c[3] * c[7] - c[4] * c[6];
    let expected = ((0.0 + c[0] * minor0) - c[1] * minor1) + c[2] * minor2;
    assert_eq!(m.det(), Ok(expected));
}

#[test]
fn det_of_four_by_four() {
    let m = square(
        4,
        &[1.0, 0.0, 2.0, -1.0, 3.0, 0.0, 0.0, 5.0, 2.0, 1.0, 4.0, -3.0, 1.0, 0.0, 5.0, 0.0],
    );
    assert_eq!(m.det(), Ok(30.0));
}

#[test]
fn det_of_a_singular_matrix_is_zero() {
    let m = square(3, &[1.0, 2.0, 3.0, 4.0, 5.0, 6.0, 7.0, 8.0, 9.0]);
    assert_eq!(m.det(), Ok(0.0));
}

#[test]
fn det_changes_sign_when_rows_are_swapped() {
    let m = square(3, &[2.0, 0.0, 1.0, 1.0, 3.0, 2.0, 1.0, 1.0, 1.0]);
    let s = square(3, &[1.0, 3.0, 2.0, 2.0, 0.0, 1.0, 1.0, 1.0, 1.0]);
    assert_eq!(m.det(), Ok(0.0 + 2.0 * 1.0 - 0.0 + 1.0 * -2.0));
    assert_eq!(s.det().unwrap(), -m.det().unwrap());
}

#[test]
fn det_of_a_non_square_matrix_is_a_dimension_mismatch() {
    let a: Matrix<f64> = Matrix::new(2, 3);
    assert_eq!(a.det(), Err(MatrixError::DimensionMismatch));
    let b: Matrix<f64> = Matrix::new(3, 2);
    assert_eq!(b.det(), Err(MatrixError::DimensionMismatch));
    let c: Matrix<f64> = Matrix::new(0, 1);
    assert_eq!(c.det(), Err(MatrixError::DimensionMismatch));
}

#[test]
fn det_agrees_with_elimination() {
    let mut seed: u64 = 0x2545_f491_4f6c_dd1d;
    for n in 1..=6usize {
        for _ in 0..20 {
            let mut cells = Vec::new();
            for _ in 0..(n * n) {
                seed ^= seed << 13;
                seed ^= seed >> 7;
                seed ^= seed << 17;
                cells.push(1.0 + (seed % 19_000) as f64 / 1000.0);
            }
            let m = Matrix::from_vec(n as u32, n as u32, cells.clone()).unwrap();
            let got = m.det().unwrap();
            let want = det_by_elimination(n, &cells);
            let scale = 1.0 + got.abs().max(want.abs());
            assert!((got - want).abs() <= 1e-9 * scale, "n = {n}: {got} against {want}");
        }
    }
}

#[test]
fn det_of_a_nan_cell_is_nan() {
    let m = square(2, &[f64::NAN, 1.0, 2.0, 3.0]);
    assert!(m.det().unwrap().is_nan());
}
