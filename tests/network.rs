use maths::{backpropagate, forward_pass, ActivationFunction, Layer, Matrix, Vector};

fn relu(_: ActivationFunction, x: &i64) -> i64 {
    if *x > 0 {
        *x
    } else {
        0
    }
}

fn two_layers() -> Vec<Layer<i64>> {
    vec![
        Layer::from_parts(
            Matrix::new(2, 2, vec![1, -1, 2, 0]),
            Vector::new(vec![0, 1]),
            ActivationFunction::ReLU,
        ),
        Layer::from_parts(
            Matrix::new(1, 2, vec![1, 1]),
            Vector::new(vec![-1]),
            ActivationFunction::ReLU,
        ),
    ]
}

#[test]
fn forward_pass_caches_weighted_inputs_and_activations() {
    let layers = two_layers();
    let (z, a) = forward_pass(&layers, &Vector::new(vec![3, 1]), relu);
    assert_eq!(z, vec![Vector::new(vec![2, 7]), Vector::new(vec![8])]);
    assert_eq!(
        a,
        vec![Vector::new(vec![3, 1]), Vector::new(vec![2, 7]), Vector::new(vec![8])]
    );
}

#[test]
fn forward_pass_applies_the_activation() {
    let layers = two_layers();
    let (z, a) = forward_pass(&layers, &Vector::new(vec![-1, 4]), relu);
    assert_eq!(z[0].elements, vec![-5, -1]);
    assert_eq!(a[1].elements, vec![0, 0]);
    assert_eq!(a[2].elements, vec![0]);
}

#[test]
fn backpropagate_runs_last_layer_first_with_updated_weights() {
    let mut layers = two_layers();
    let activations = vec![Vector::new(vec![3, 1]), Vector::new(vec![2, 7])];
    let derivatives = vec![Vector::new(vec![1, 1]), Vector::new(vec![1])];
    backpropagate(&mut layers, &activations, &derivatives, &Vector::new(vec![1]), 1);
    assert_eq!(layers[1].weights.elements, vec![-1, -6]);
    assert_eq!(layers[1].biases.elements, vec![-2]);
    assert_eq!(layers[0].weights.elements, vec![4, 0, 20, 6]);
    assert_eq!(layers[0].biases.elements, vec![1, 7]);
    assert_eq!(layers[0].activation, ActivationFunction::ReLU);
}

#[test]
fn backpropagate_on_no_layers_changes_nothing() {
    let mut layers: Vec<Layer<i64>> = Vec::new();
    backpropagate(&mut layers, &Vec::new(), &Vec::new(), &Vector::new(vec![1]), 1);
    assert!(layers.is_empty());
}
