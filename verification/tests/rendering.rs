use dense_matrix::matrix::Matrix;
use dense_matrix::text::layout;

#[test]
fn render_of_two_by_two() {
    let m = Matrix::from_vec(2, 2, vec![1.0, 2.0, 3.0, 4.0]).unwrap();
    assert_eq!(m.render(), "1 2\n3 4\n");
}

#[test]
fn render_can_be_read_back() {
    let cells = vec![1.0, 2.5, -3.0, 4.125, 1e-7, 6.0];
    let m = Matrix::from_vec(2, 3, cells.clone()).unwrap();
    let text = m.render();
    assert_eq!(text.lines().count(), 2);
    let back: Vec<f64> = text.split_whitespace().map(|t| t.parse().unwrap()).collect();
    assert_eq!(back, cells);
}

#[test]
fn render_of_a_single_row() {
    let m = Matrix::from_vec(1, 3, vec![1.5, 2.0, -3.0]).unwrap();
    assert_eq!(m.render(), "1.5 2 -3\n");
}

#[test]
fn render_of_a_single_column() {
    let m = Matrix::from_vec(3, 1, vec![1.0, 2.0, 3.0]).unwrap();
    assert_eq!(m.render(), "1\n2\n3\n");
}

#[test]
fn render_of_an_empty_matrix_is_empty() {
    let a: Matrix<f64> = Matrix::new(0, 0);
    assert_eq!(a.render(), "");
    let b: Matrix<f64> = Matrix::new(3, 0);
    assert_eq!(b.render(), "");
    let c: Matrix<f64> = Matrix::new(0, 3);
    assert_eq!(c.render(), "");
}

#[test]
fn render_of_a_new_matrix_shows_zeros() {
    let m: Matrix<f64> = Matrix::new(2, 2);
    assert_eq!(m.render(), "0 0\n0 0\n");
}

#[test]
fn layout_breaks_after_each_full_row() {
    let texts: Vec<String> = ["a", "bb", "ccc", "d", "", "f"].iter().map(|t| t.to_string()).collect();
    assert_eq!(layout(&texts, 3), "a bb ccc\nd  f\n");
    assert_eq!(layout(&texts, 2), "a bb\nccc d\n f\n");
    assert_eq!(layout(&texts, 1), "a\nbb\nccc\nd\n\nf\n");
}

#[test]
fn layout_of_a_partial_last_row_ends_in_a_space() {
    let texts: Vec<String> = ["1", "2", "3"].iter().map(|t| t.to_string()).collect();
    assert_eq!(layout(&texts, 2), "1 2\n3 ");
    assert_eq!(layout(&texts, 5), "1 2 3 ");
}

#[test]
fn layout_of_nothing_is_empty() {
    assert_eq!(layout(&Vec::new(), 4), "");
}
