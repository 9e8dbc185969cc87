use sunhouse::matrix::{Matrix, Matrix2x2, Matrix3x3, Matrix4x4};

fn rows4() -> Vec<Vec<f64>> {
    vec![
        vec![0.0, 9.0, 3.0, 0.0],
        vec![9.0, 8.0, 0.0, 8.0],
        vec![1.0, 8.0, 5.0, 3.0],
        vec![0.0, 0.0, 5.0, 8.0],
    ]
}

#[test]
fn from_rows_reads_entries() {
    let m = Matrix::from_rows(vec![
        vec![1.0, 2.0, 3.0, 4.0],
        vec![5.5, 6.5, 7.5, 8.5],
        vec![9.0, 10.0, 11.0, 12.0],
        vec![13.5, 14.5, 15.5, 16.5],
    ]);
    assert_eq!(m.get_value(0, 0), 1.0);
    assert_eq!(m.get_value(0, 3), 4.0);
    assert_eq!(m.get_value(1, 0), 5.5);
    assert_eq!(m.get_value(1, 2), 7.5);
    assert_eq!(m.get_value(2, 2), 11.0);
    assert_eq!(m.get_value(3, 0), 13.5);
    assert_eq!(m.get_value(3, 2), 15.5);
}

#[test]
fn from_rows_two_and_three() {
    let m = Matrix::from_rows(vec![vec![-3.0, 5.0], vec![1.0, -2.0]]);
    assert!(matches!(m, Matrix::Matrix2x2(_)));
    assert_eq!(m.get_value(1, 1), -2.0);
    let m = Matrix::from_rows(vec![vec![-3.0, 5.0, 0.0], vec![1.0, -2.0, -7.0], vec![0.0, 1.0, 1.0]]);
    assert!(matches!(m, Matrix::Matrix3x3(_)));
    assert_eq!(m.get_value(1, 2), -7.0);
}

#[test]
fn set_value_changes_one_entry() {
    let mut m = Matrix::from_rows(rows4());
    m.set_value(1, 3, 42.0);
    assert_eq!(m.get_value(1, 3), 42.0);
    assert_eq!(m.get_value(3, 1), 0.0);
    assert_eq!(m.get_value(1, 2), 0.0);
}

#[test]
fn transpose_4x4() {
    let m = Matrix::from_rows(rows4());
    let t = m.transpose();
    for i in 0..4 {
        for j in 0..4 {
            assert_eq!(t.get_value(i, j), m.get_value(j, i));
        }
    }
    assert_eq!(t.get_value(0, 1), 9.0);
    assert_eq!(t.get_value(3, 2), 3.0);
}

#[test]
fn transpose_twice_is_identity_map() {
    let m = Matrix4x4([[1, 2, 3, 4], [5, 6, 7, 8], [9, 10, 11, 12], [13, 14, 15, 16]]);
    assert_eq!(m.transpose().transpose().0, m.0);
    let m = Matrix3x3([[1, 2, 3], [4, 5, 6], [7, 8, 9]]);
    assert_eq!(m.transpose().transpose().0, m.0);
    let m = Matrix2x2([[1, 2], [3, 4]]);
    assert_eq!(m.transpose().0, [[1, 3], [2, 4]]);
    assert_eq!(m.transpose().transpose().0, m.0);
}

#[test]
fn submatrix_of_3x3() {
    let m = Matrix3x3([[1.0, 5.0, 0.0], [-3.0, 2.0, 7.0], [0.0, 6.0, -3.0]]);
    assert_eq!(m.submatrix(0, 2).0, [[-3.0, 2.0], [0.0, 6.0]]);
}

#[test]
fn submatrix_of_4x4() {
    let m = Matrix4x4([
        [-6.0, 1.0, 1.0, 6.0],
        [-8.0, 5.0, 8.0, 6.0],
        [-1.0, 0.0, 8.0, 2.0],
        [-7.0, 1.0, -1.0, 1.0],
    ]);
    assert_eq!(m.submatrix(2, 1).0, [[-6.0, 1.0, 6.0], [-8.0, 8.0, 6.0], [-7.0, -1.0, 1.0]]);
}

#[test]
fn submatrix_of_tagged_matrix() {
    let m = Matrix::from_rows(rows4());
    let s = m.submatrix(0, 0);
    assert!(matches!(s, Matrix::Matrix3x3(_)));
    assert_eq!(s.get_value(0, 0), 8.0);
    assert_eq!(s.get_value(2, 2), 8.0);
    let s2 = s.submatrix(1, 1);
    assert!(matches!(s2, Matrix::Matrix2x2(_)));
    assert_eq!(s2.get_value(0, 1), 8.0);
    assert_eq!(s2.get_value(1, 0), 0.0);
}
