use raytracer::{cofactor_negated, Matrix};

fn matrix(rows: &[&[f64]]) -> Matrix<f64> {
    Matrix::from_rows(rows.iter().map(|r| r.to_vec()).collect()).unwrap()
}

fn assert_approx_eq(a: f64, b: f64) {
    assert!((a - b).abs() < 1.0e-5, "{} is not approximately equal to {}", a, b);
}

#[test]
fn index_accessfor_4_by_4() {
    let mat = matrix(&[
        &[1.0, 2.0, 3.0, 4.0],
        &[5.5, 6.7, 7.5, 8.5],
        &[9.0, 10.0, 11.0, 12.0],
        &[13.5, 14.5, 15.5, 16.5],
    ]);

    assert_approx_eq(mat.get(0, 0), 1.0);
    assert_approx_eq(mat.get(0, 3), 4.0);
    assert_approx_eq(mat.get(1, 0), 5.5);
    assert_approx_eq(mat.get(2, 2), 11.0);
    assert_approx_eq(mat.get(3, 0), 13.5);
    assert_approx_eq(mat.get(3, 2), 15.5);
}

#[test]
fn index_accessfor_3_by_3() {
    let mat = matrix(&[&[-3.0, 5.0, 0.0], &[1.0, -2.0, -7.0], &[0.0, 1.0, 1.0]]);

    assert_approx_eq(mat.get(0, 0), -3.0);
    assert_approx_eq(mat.get(1, 1), -2.0);
    assert_approx_eq(mat.get(2, 2), 1.0);
}

#[test]
fn index_accessfor_2_by_2() {
    let mat = matrix(&[&[-3.0, 5.0], &[1.0, -2.0]]);

    assert_approx_eq(mat.get(0, 0), -3.0);
    assert_approx_eq(mat.get(0, 1), 5.0);
    assert_approx_eq(mat.get(1, 0), 1.0);
    assert_approx_eq(mat.get(1, 1), -2.0);
}

#[test]
fn transpose_matrix() {
    let mat = matrix(&[
        &[0.0, 9.0, 3.0, 0.0],
        &[9.0, 8.0, 0.0, 8.0],
        &[1.0, 8.0, 5.0, 3.0],
        &[0.0, 0.0, 5.0, 8.0],
    ]);

    let trans_mat = matrix(&[
        &[0.0, 9.0, 1.0, 0.0],
        &[9.0, 8.0, 8.0, 0.0],
        &[3.0, 0.0, 5.0, 5.0],
        &[0.0, 8.0, 3.0, 8.0],
    ]);

    assert_eq!(mat.transpose(), trans_mat);
    assert_eq!(
        Matrix::identity(4, 0.0, 1.0).transpose(),
        Matrix::identity(4, 0.0, 1.0)
    );
}

#[test]
fn submatrix_of_a_3_by_3_matrix() {
    let mat = matrix(&[&[1.0, 5.0, 0.0], &[-3.0, 2.0, 7.0], &[0.0, 6.0, -3.0]]);

    let result = matrix(&[&[-3.0, 2.0], &[0.0, 6.0]]);

    assert_eq!(mat.submatrix(0, 2), result)
}

#[test]
fn submatrix_of_a_4_by_4_matrix() {
    let mat = matrix(&[
        &[-6.0, 1.0, 1.0, 6.0],
        &[-8.0, 5.0, 8.0, 6.0],
        &[-1.0, 0.0, 8.0, 2.0],
        &[-7.0, 1.0, -1.0, 1.0],
    ]);

    let result = matrix(&[&[-6.0, 1.0, 6.0], &[-8.0, 8.0, 6.0], &[-7.0, -1.0, 1.0]]);

    assert_eq!(mat.submatrix(2, 1), result)
}

#[test]
fn identity_has_ones_on_the_diagonal() {
    let id = Matrix::identity(3, 0, 1);
    assert_eq!(id.size(), 3);
    for row in 0..3 {
        for col in 0..3 {
            assert_eq!(id.get(row, col), if row == col { 1 } else { 0 });
        }
    }
}

#[test]
fn translation_puts_offset_in_last_column() {
    let t = Matrix::translation(0.0, 1.0, 5.0, -3.0, 2.0);
    let expected = matrix(&[
        &[1.0, 0.0, 0.0, 5.0],
        &[0.0, 1.0, 0.0, -3.0],
        &[0.0, 0.0, 1.0, 2.0],
        &[0.0, 0.0, 0.0, 1.0],
    ]);
    assert_eq!(t, expected);
}

#[test]
fn set_changes_one_entry() {
    let mut m = Matrix::identity(2, 0, 1);
    m.set(0, 1, 8);
    assert_eq!(m.get(0, 1), 8);
    assert_eq!(m.get(0, 0), 1);
    assert_eq!(m.get(1, 0), 0);
    assert_eq!(m.get(1, 1), 1);
}

#[test]
fn from_rows_refuses_a_non_square_grid() {
    assert!(Matrix::from_rows(vec![vec![1, 2], vec![3]]).is_none());
    assert!(Matrix::from_rows(vec![vec![1, 2, 3], vec![4, 5, 6]]).is_none());
    assert!(Matrix::from_rows(vec![vec![1, 2], vec![3, 4]]).is_some());
}

#[test]
fn submatrix_keeps_order_of_remaining_rows_and_columns() {
    let m = Matrix::from_rows(vec![vec![1, 2, 3], vec![4, 5, 6], vec![7, 8, 9]]).unwrap();
    let s = m.submatrix(1, 1);
    assert_eq!(s, Matrix::from_rows(vec![vec![1, 3], vec![7, 9]]).unwrap());
    let corner = m.submatrix(2, 2);
    assert_eq!(corner, Matrix::from_rows(vec![vec![1, 2], vec![4, 5]]).unwrap());
}

#[test]
fn transposing_twice_gives_the_matrix_back() {
    let m = Matrix::from_rows(vec![vec![1, 2, 3], vec![4, 5, 6], vec![7, 8, 9]]).unwrap();
    assert_eq!(m.transpose().get(0, 2), 7);
    assert_eq!(m.transpose().transpose(), m);
}

#[test]
fn cofactor_sign_follows_a_checkerboard() {
    assert!(!cofactor_negated(0, 0));
    assert!(cofactor_negated(0, 1));
    assert!(cofactor_negated(1, 0));
    assert!(!cofactor_negated(1, 1));
    assert!(!cofactor_negated(2, 0));
    assert!(cofactor_negated(3, 2));
}
