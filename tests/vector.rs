use maths::{LossFunction, Vector};

#[test]
fn vector_addition() {
    let [v1, v2] = [Vector::new(vec![1, 2, 3]), Vector::new(vec![4, 5, 6])];
    let v3 = &v1 + &v2;

    assert_eq!(v3, Vector::new(vec![5, 7, 9]));
}

#[test]
fn vector_scalar_multiply() {
    let v1 = Vector::new(vec![1, 2, 3]);
    let v2 = &v1 * 2;

    assert_eq!(v2, Vector::new(vec![2, 4, 6]));
}

#[test]
fn dot_product() {
    let [v1, v2] = [Vector::new(vec![1, 2, 3]), Vector::new(vec![4, 5, 6])];
    let result = v1.dot(&v2);

    assert_eq!(result, 32);
}

#[test]
fn vector_subtraction() {
    let a = Vector::new(vec![10i64, -4, 7]);
    let b = Vector::new(vec![3i64, 6, 7]);
    assert_eq!((&a - &b).elements, vec![7, -10, 0]);
}

#[test]
fn subtraction_undoes_addition() {
    let a = Vector::new(vec![3i64, -8, 0, 42]);
    let b = Vector::new(vec![-5i64, 9, 11, 1]);
    let sum = &a + &b;
    assert_eq!(&sum - &b, a);
}

#[test]
fn dot_product_commutes() {
    let a = Vector::new(vec![2i64, -3, 5, 7]);
    let b = Vector::new(vec![-1i64, 4, 6, 0]);
    assert_eq!(a.dot(&b), b.dot(&a));
    assert_eq!(a.dot(&b), 16);
}

#[test]
fn dot_product_of_empty_vectors_is_zero() {
    let a: Vector<i64> = Vector::new(vec![]);
    assert_eq!(a.dot(&a), 0);
}

#[test]
fn element_wise_product() {
    let a = Vector::new(vec![1i64, -2, 3]);
    let b = Vector::new(vec![4i64, 5, -6]);
    assert_eq!(a.element_wise_mul(&b).elements, vec![4, -10, -18]);
}

#[test]
fn vector_from_fn_and_map() {
    let v = Vector::from_fn(4, |i| (i * i) as i64);
    assert_eq!(v.elements, vec![0, 1, 4, 9]);
    let w = v.map(|x| *x + 1);
    assert_eq!(w.elements, vec![1, 2, 5, 10]);
}

#[test]
fn outer_product() {
    let a = Vector::new(vec![1i64, 2]);
    let b = Vector::new(vec![3i64, 4, 5]);
    let m = a.outer(&b);
    assert_eq!(m.rows, 2);
    assert_eq!(m.cols, 3);
    assert_eq!(m.elements, vec![3, 4, 5, 6, 8, 10]);
}

#[test]
fn float_vectors_add_entrywise() {
    let a = Vector::new(vec![0.5, 1.5]);
    let b = Vector::new(vec![0.25, -1.0]);
    assert_eq!((&a + &b).elements, vec![0.75, 0.5]);
}

#[test]
fn mean_squared_error_gradient() {
    let output = Vector::new(vec![5i64, 2, -1]);
    let target = Vector::new(vec![1i64, 2, 3]);
    let g = LossFunction::MeanSquaredError.derivative(&output, &target);
    assert_eq!(g.elements, vec![4, 0, -4]);
}

#[test]
fn vector_indexing() {
    let v = Vector::new(vec![7i64, 8, 9]);
    assert_eq!(v[0], 7);
    assert_eq!(v[2], 9);
}
