use maths::{ActivationFunction, Layer, Matrix, Vector};

fn sample_layer() -> Layer<i64> {
    Layer::from_parts(
        Matrix::new(2, 3, vec![1, 2, 3, 4, 5, 6]),
        Vector::new(vec![10, -10]),
        ActivationFunction::ReLU,
    )
}

#[test]
fn weighted_input_adds_biases() {
    let layer = sample_layer();
    let z = layer.weighted_input(&Vector::new(vec![1, 0, -1]));
    assert_eq!(z.elements, vec![8, -12]);
}

#[test]
fn backward_gives_three_gradients() {
    let layer = sample_layer();
    let input = Vector::new(vec![1, 2, 3]);
    let delta = Vector::new(vec![2, -1]);
    let (dw, db, di) = layer.backward(&input, &delta);
    assert_eq!((dw.rows, dw.cols), (2, 3));
    assert_eq!(dw.elements, vec![2, 4, 6, -1, -2, -3]);
    assert_eq!(db, delta);
    assert_eq!(di.elements, vec![-2, -1, 0]);
}

#[test]
fn gradient_step_moves_weights_and_biases() {
    let mut layer = sample_layer();
    let dw = Matrix::new(2, 3, vec![1, 0, 1, 0, 1, 0]);
    let db = Vector::new(vec![1, 2]);
    layer.apply_gradients(&dw, &db, 2);
    assert_eq!(layer.weights.elements, vec![-1, 2, 1, 4, 3, 6]);
    assert_eq!(layer.biases.elements, vec![8, -14]);
    assert_eq!(layer.activation, ActivationFunction::ReLU);
}

#[test]
fn train_step_updates_then_propagates() {
    let mut layer = sample_layer();
    let delta = Vector::new(vec![2, -1]);
    let derivative = Vector::new(vec![1, 3]);
    let input = Vector::new(vec![1, 0, 2]);
    let previous = layer.train_step(&delta, &derivative, &input, 1);
    assert_eq!(layer.weights.elements, vec![-1, 2, -1, 7, 5, 12]);
    assert_eq!(layer.biases.elements, vec![8, -7]);
    assert_eq!(previous.elements, vec![-23, -11, -38]);
}
