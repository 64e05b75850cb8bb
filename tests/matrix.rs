use raytracer::layout::{cofactor_negated, Matrix};

fn identity(n: usize) -> Matrix<f64> {
    Matrix::from_fn(n, |i, j| if i == j { 1.0 } else { 0.0 })
}

#[test]
fn mat2_creating_matrix() {
    let m = Matrix::from_buffer(2, vec![1.0, 2.0, 3.0, 4.0]);
    assert_eq!(m.get(0, 0), 1.0);
    assert_eq!(m.get(0, 1), 2.0);
    assert_eq!(m.get(1, 0), 3.0);
    assert_eq!(m.get(1, 1), 4.0);
}

#[test]
fn mat2_matrix_equality() {
    let m1 = Matrix::from_buffer(2, vec![1.0, 2.0, 3.0, 4.0]);
    let m2 = Matrix::from_buffer(2, vec![1.0, 2.0, 3.0, 4.0]);
    let m3 = Matrix::from_buffer(2, vec![1.1, 2.1, 3.1, 4.0]);
    assert_eq!(m1, m2);
    assert_ne!(m1, m3);
}

#[test]
fn mat2_transpose_matrix() {
    let m1 = Matrix::from_buffer(2, vec![0.0, 9.0, 3.0, 0.0]);
    let m2 = Matrix::from_buffer(2, vec![0.0, 3.0, 9.0, 0.0]);
    assert_eq!(m1.transpose(), m2)
}

#[test]
fn mat2_transpose_identy() {
    let m1 = identity(2);
    assert_eq!(m1.transpose(), identity(2))
}

#[test]
fn mat3_creating_matrix() {
    let m = Matrix::from_buffer(3, vec![1.0, 2.0, 3.0, 4.0, 5.0, 6.0, 7.0, 8.0, 9.0]);
    assert_eq!(m.get(0, 0), 1.0);
    assert_eq!(m.get(0, 1), 2.0);
    assert_eq!(m.get(0, 2), 3.0);
    assert_eq!(m.get(1, 0), 4.0);
    assert_eq!(m.get(1, 1), 5.0);
    assert_eq!(m.get(1, 2), 6.0);
    assert_eq!(m.get(2, 0), 7.0);
    assert_eq!(m.get(2, 1), 8.0);
    assert_eq!(m.get(2, 2), 9.0);
}

#[test]
fn mat3_matrix_equality() {
    let m1 = Matrix::from_buffer(3, vec![1.0, 2.0, 3.0, 4.0, 5.0, 6.0, 7.0, 8.0, 9.0]);
    let m2 = Matrix::from_buffer(3, vec![1.0, 2.0, 3.0, 4.0, 5.0, 6.0, 7.0, 8.0, 9.0]);
    let m3 = Matrix::from_buffer(3, vec![1.1, 2.0, 3.0, 4.0, 7.0, 6.0, 7.0, 8.0, 2.0]);
    assert_eq!(m1, m2);
    assert_ne!(m1, m3);
}

#[test]
fn mat3_transpose_matrix() {
    let m1 = Matrix::from_buffer(3, vec![1.0, 2.0, 3.0, 4.0, 5.0, 6.0, 7.0, 8.0, 9.0]);
    let m2 = Matrix::from_buffer(3, vec![1.0, 4.0, 7.0, 2.0, 5.0, 8.0, 3.0, 6.0, 9.0]);
    assert_eq!(m1.transpose(), m2)
}

#[test]
fn mat3_transpose_identy() {
    let m1 = identity(3);
    assert_eq!(m1.transpose(), identity(3))
}

#[test]
fn mat3_submatrix() {
    let m3 = Matrix::from_buffer(3, vec![1.0, 5.0, 0.0, -3.0, 2.0, 7.0, 0.0, 6.0, -3.0]);
    let m2 = m3.submatrix(0, 2);
    assert_eq!(m2, Matrix::from_buffer(2, vec![-3.0, 2.0, 0.0, 6.0]))
}

#[test]
fn mat4_creating_matrix() {
    let m = Matrix::from_buffer(
        4,
        vec![
            1.0, 2.0, 3.0, 4.0, 5.5, 6.5, 7.5, 8.5, 9.0, 10.0, 11.0, 12.0, 13.5, 14.5, 15.5, 16.5,
        ],
    );
    assert_eq!(m.get(0, 0), 1.0);
    assert_eq!(m.get(0, 1), 2.0);
    assert_eq!(m.get(0, 2), 3.0);
    assert_eq!(m.get(0, 3), 4.0);
    assert_eq!(m.get(1, 0), 5.5);
    assert_eq!(m.get(1, 1), 6.5);
    assert_eq!(m.get(1, 2), 7.5);
    assert_eq!(m.get(1, 3), 8.5);
    assert_eq!(m.get(2, 0), 9.0);
    assert_eq!(m.get(2, 1), 10.0);
    assert_eq!(m.get(2, 2), 11.0);
    assert_eq!(m.get(2, 3), 12.0);
    assert_eq!(m.get(3, 0), 13.5);
    assert_eq!(m.get(3, 1), 14.5);
    assert_eq!(m.get(3, 2), 15.5);
    assert_eq!(m.get(3, 3), 16.5);
}

#[test]
fn mat4_matrix_equality() {
    let cells = vec![
        1.0, 2.0, 3.0, 4.0, 5.5, 6.5, 7.5, 8.5, 9.0, 10.0, 11.0, 12.0, 13.5, 14.5, 15.5, 16.5,
    ];
    let m1 = Matrix::from_buffer(4, cells.clone());
    let m2 = Matrix::from_buffer(4, cells);
    let m3 = Matrix::from_buffer(
        4,
        vec![
            1.1, 2.1, 3.1, 4.0, 5.5, 6.5, 7.5, 8.5, 9.0, 10.0, 11.0, 12.0, 13.5, 14.5, 15.5, 16.5,
        ],
    );
    assert_eq!(m1, m2);
    assert_ne!(m1, m3);
}

#[test]
fn mat4_transpose_matrix() {
    let m1 = Matrix::from_buffer(
        4,
        vec![0.0, 9.0, 3.0, 0.0, 9.0, 8.0, 0.0, 8.0, 1.0, 8.0, 5.0, 3.0, 0.0, 0.0, 5.0, 8.0],
    );
    let m2 = Matrix::from_buffer(
        4,
        vec![0.0, 9.0, 1.0, 0.0, 9.0, 8.0, 8.0, 0.0, 3.0, 0.0, 5.0, 5.0, 0.0, 8.0, 3.0, 8.0],
    );
    assert_eq!(m1.transpose(), m2)
}

#[test]
fn mat4_transpose_identy() {
    let m1 = identity(4);
    assert_eq!(m1.transpose(), identity(4))
}

#[test]
fn mat4_submatrix() {
    let m1 = Matrix::from_buffer(
        4,
        vec![-6.0, 1.0, 1.0, 6.0, -8.0, 5.0, 8.0, 6.0, -1.0, 0.0, 8.0, 2.0, -7.0, 1.0, -1.0, 1.0],
    );
    let m3 = m1.submatrix(2, 1);
    assert_eq!(m3, Matrix::from_buffer(3, vec![-6.0, 1.0, 6.0, -8.0, 8.0, 6.0, -7.0, -1.0, 1.0]))
}

#[test]
fn submatrix_of_first_row_and_column() {
    let m = Matrix::from_buffer(3, vec![1, 2, 3, 4, 5, 6, 7, 8, 9]);
    assert_eq!(m.submatrix(0, 0), Matrix::from_buffer(2, vec![5, 6, 8, 9]));
    assert_eq!(m.submatrix(2, 2), Matrix::from_buffer(2, vec![1, 2, 4, 5]));
    assert_eq!(m.submatrix(1, 1), Matrix::from_buffer(2, vec![1, 3, 7, 9]));
}

#[test]
fn submatrix_of_two_by_two_is_one_cell() {
    let m = Matrix::from_buffer(2, vec![1, 2, 3, 4]);
    let s = m.submatrix(0, 1);
    assert_eq!(s.dim(), 1);
    assert_eq!(s.get(0, 0), 3);
}

#[test]
fn from_fn_fills_row_by_row() {
    let m = Matrix::from_fn(3, |i, j| 10 * i + j);
    assert_eq!(m, Matrix::from_buffer(3, vec![0, 1, 2, 10, 11, 12, 20, 21, 22]));
    assert_eq!(m.size(), 9);
    assert_eq!(m.dim(), 3);
}

#[test]
fn filled_and_set_cell() {
    let mut m = Matrix::filled(2, 0u8);
    m.set(1, 0, 7);
    assert_eq!(m, Matrix::from_buffer(2, vec![0, 0, 7, 0]));
    assert_eq!(m.get(1, 0), 7);
}

#[test]
fn transpose_twice_gives_back_the_matrix() {
    let m = Matrix::from_fn(4, |i, j| 4 * i + j);
    assert_ne!(m.transpose(), m);
    assert_eq!(m.transpose().transpose(), m);
}

#[test]
fn cofactor_sign_follows_parity() {
    assert!(!cofactor_negated(0, 0));
    assert!(cofactor_negated(0, 1));
    assert!(cofactor_negated(1, 0));
    assert!(!cofactor_negated(1, 1));
    assert!(cofactor_negated(2, 3));
    assert!(!cofactor_negated(3, 3));
}
