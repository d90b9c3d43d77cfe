use maths::{Matrix, Vector};

#[test]
fn test_vector_operations() {
    let [v1, v2] = [Vector::new(vec![1.0, 2.0, 3.0]), Vector::new(vec![4.0, 5.0, 6.0])];
    let v3 = &v1 + &v2;

    assert_eq!(v3.elements, vec![5.0, 7.0, 9.0]);
}

#[test]
fn test_matrix_operations() {
    let [m1, m2] = [
        Matrix::new(2, 2, vec![1.0, 2.0, 3.0, 4.0]),
        Matrix::new(2, 2, vec![5.0, 6.0, 7.0, 8.0]),
    ];
    let m3 = &m1 + &m2;

    assert_eq!(m3.elements, vec![6.0, 8.0, 10.0, 12.0]);
}

#[test]
fn test_matrix_vector_multiplication() {
    let m = Matrix::new(2, 3, vec![1.0, 2.0, 3.0, 4.0, 5.0, 6.0]);
    let v = Vector::new(vec![7.0, 8.0, 9.0]);
    let result = &m * &v;

    assert_eq!(result.elements, vec![50.0, 122.0]);
}

#[test]
fn integer_matrix_addition() {
    let m1 = Matrix::new(2, 2, vec![1i64, 2, 3, 4]);
    let m2 = Matrix::new(2, 2, vec![5i64, 6, 7, 8]);
    let m3 = &m1 + &m2;
    assert_eq!((m3.rows, m3.cols), (2, 2));
    assert_eq!(m3.elements, vec![6, 8, 10, 12]);
}

#[test]
fn integer_matrix_vector_product() {
    let m = Matrix::new(2, 3, vec![1i64, 2, 3, 4, 5, 6]);
    let v = Vector::new(vec![7i64, 8, 9]);
    let r = &m * &v;
    assert_eq!(r.elements, vec![50, 122]);
}

#[test]
fn matrix_vector_product_has_one_entry_per_row() {
    let m = Matrix::new(4, 2, vec![1i64, 0, 0, 1, 1, 1, 2, -1]);
    let v = Vector::new(vec![3i64, 5]);
    let r = &m * &v;
    assert_eq!(r.elements.len(), m.rows);
    assert_eq!(r.elements, vec![3, 5, 8, 1]);
}

#[test]
fn matrix_subtraction_and_scaling() {
    let m1 = Matrix::new(2, 3, vec![9i64, 8, 7, 6, 5, 4]);
    let m2 = Matrix::new(2, 3, vec![1i64, 1, 1, 2, 2, 2]);
    assert_eq!((&m1 - &m2).elements, vec![8, 7, 6, 4, 3, 2]);
    assert_eq!((&m2 * 3).elements, vec![3, 3, 3, 6, 6, 6]);
}

#[test]
fn transpose_swaps_shape_and_entries() {
    let m = Matrix::new(2, 3, vec![1i64, 2, 3, 4, 5, 6]);
    let t = m.transpose();
    assert_eq!((t.rows, t.cols), (3, 2));
    assert_eq!(t.elements, vec![1, 4, 2, 5, 3, 6]);
}

#[test]
fn transpose_twice_gives_back_the_matrix() {
    let m = Matrix::new(3, 2, vec![1i64, -2, 3, -4, 5, -6]);
    let back = m.transpose().transpose();
    assert_eq!((back.rows, back.cols), (m.rows, m.cols));
    assert_eq!(back.elements, m.elements);
}

#[test]
fn non_square_matrix_product() {
    let a = Matrix::new(2, 3, vec![1i64, 2, 3, 4, 5, 6]);
    let b = Matrix::new(3, 2, vec![7i64, 8, 9, 10, 11, 12]);
    let c = &a * &b;
    assert_eq!((c.rows, c.cols), (2, 2));
    assert_eq!(c.elements, vec![58, 64, 139, 154]);
}

#[test]
fn matrix_from_fn_is_row_major() {
    let m = Matrix::from_fn(2, 3, |r, c| (10 * r + c) as i64);
    assert_eq!(m.elements, vec![0, 1, 2, 10, 11, 12]);
}

#[test]
fn matrix_indexing_is_row_major() {
    let m = Matrix::new(2, 3, vec![1i64, 2, 3, 4, 5, 6]);
    assert_eq!(m[(0, 0)], 1);
    assert_eq!(m[(0, 2)], 3);
    assert_eq!(m[(1, 0)], 4);
    assert_eq!(m[(1, 2)], 6);
}
