use nn::ColumnVector;
use nn::Matrix;
use nn::NetworkError;
use nn::NeuralNetwork;
use nn::mean_square_error;

fn empty_network() -> NeuralNetwork<f32> {
    NeuralNetwork::new_from_vecs(Vec::new(), Some(Vec::new()), Some(Vec::new()), 0.0)
}

#[test]
fn check_feed_forward() {
    let amount_weight_matrices = 20;
    let matrix_size = 5;
    let mut weights: Vec<Matrix<f32>> = Vec::with_capacity(amount_weight_matrices);
    for _ in 0..amount_weight_matrices {
        weights.push(Matrix::identity(matrix_size, 0.0, 1.0));
    }
    let mut test_nn = NeuralNetwork::new_from_vecs(weights, None, None, 0.0);
    let input_vector = ColumnVector::new_with_elements(matrix_size, 1.0);
    test_nn.calculate_all_activation_values(input_vector, &|a, b| a * b, &|a, b| a + b, 0.0);
    for value in &test_nn.activation_values {
        let _ = value;
    }
}

#[test]
fn identity_pass_preserves_input_at_every_layer() {
    let size = 4;
    let input = [0.5f32, -1.25, 3.0, 2.0];
    let mut weights: Vec<Matrix<f32>> = Vec::new();
    let mut biases: Vec<ColumnVector<f32>> = Vec::new();
    for _ in 0..3 {
        weights.push(Matrix::identity(size, 0.0, 1.0));
        biases.push(ColumnVector::new_with_elements(size, 0.0));
    }
    let mut activations: Vec<ColumnVector<f32>> = Vec::new();
    for _ in 0..4 {
        activations.push(ColumnVector::new_with_elements(size, 0.0));
    }
    let mut net = NeuralNetwork::new_from_vecs(weights, Some(biases), Some(activations), 0.0);
    net.calculate_all_activation_values(
        ColumnVector { data: input.to_vec() },
        &|a, b| a * b,
        &|a, b| a + b,
        0.0,
    );
    assert_eq!(net.activation_values[0].data, input.to_vec());
    assert_eq!(net.activation_values[1].data, input.to_vec());

    // Step one transition at a time as well: the front must equal the
    // input after every single step.
    let mut net2 = NeuralNetwork::new_from_vecs(
        vec![
            Matrix::identity(size, 0.0, 1.0),
            Matrix::identity(size, 0.0, 1.0),
            Matrix::identity(size, 0.0, 1.0),
        ],
        None,
        None,
        0.0,
    );
    net2.activation_values.pop_front();
    net2
        .activation_values
        .push_front(ColumnVector { data: input.to_vec() });
    for layer in 0..3 {
        net2._forward_pass_one_step(layer, &|a, b| a * b, &|a, b| a + b, 0.0);
        assert_eq!(net2.activation_values[0].data, input.to_vec());
    }
}

#[test]
fn shape_invariant_from_layer_sizes() {
    let base = empty_network();
    let sizes = [3usize, 4, 2];
    let net = base
        .new(&sizes, Some(0.25f32), &|| 0.0, 0.0)
        .unwrap();
    assert_eq!(net.weights.len(), 2);
    assert_eq!(net.biases.len(), 2);
    assert_eq!(net.activation_values.len(), 3);
    for i in 0..2 {
        assert_eq!(net.weights[i].data.len(), sizes[i + 1]);
        for row in &net.weights[i].data {
            assert_eq!(row.len(), sizes[i]);
        }
        assert_eq!(net.biases[i].data.len(), sizes[i + 1]);
    }
    for i in 0..3 {
        assert_eq!(net.activation_values[i].data.len(), sizes[i]);
    }
}

#[test]
fn single_step_rotates_and_computes_affine_image() {
    let weights = vec![Matrix {
        data: vec![vec![1.0f32, 2.0], vec![3.0, 4.0]],
    }];
    let biases = vec![ColumnVector { data: vec![10.0f32, 20.0] }];
    let activations = vec![
        ColumnVector { data: vec![1.0f32, 1.0] },
        ColumnVector { data: vec![0.0f32, 0.0] },
    ];
    let mut net = NeuralNetwork::new_from_vecs(weights, Some(biases), Some(activations), 0.0);
    net._forward_pass_one_step(0, &|a, b| a * b, &|a, b| a + b, 0.0);
    // Front: (original front x weights[0]) + biases[0], via the same
    // scalar primitives.
    assert_eq!(net.activation_values[0].data, vec![13.0f32, 27.0]);
    // Second: the original front, unchanged.
    assert_eq!(net.activation_values[1].data, vec![1.0f32, 1.0]);
}

#[test]
fn mean_square_error_scenario() {
    let outputs = vec![ColumnVector { data: vec![1.0f32, 2.0] }];
    let desired = vec![ColumnVector { data: vec![1.0f32, 0.0] }];
    let loss = mean_square_error(
        outputs,
        desired,
        &|a: f32, b: f32| a - b,
        &|a: f32, b: f32| a * b,
        &|a: f32, b: f32| a + b,
        &|acc: f32, n: usize| acc / (2.0 * n as f32),
        0.0,
    );
    assert_eq!(loss, 2.0);
}

#[test]
fn construction_fails_below_two_layers() {
    let base = empty_network();
    let none: [usize; 0] = [];
    let one = [7usize];
    let err0 = base.new(&none, Some(0.0f32), &|| 0.0, 0.0);
    let err1 = base.new(&one, Some(0.0f32), &|| 0.0, 0.0);
    assert!(matches!(err0, Err(NetworkError::TooFewLayers)));
    assert!(matches!(err1, Err(NetworkError::TooFewLayers)));
    // Two layers are enough.
    let ok = base.new(&[1usize, 1], Some(0.0f32), &|| 0.0, 0.0);
    assert!(ok.is_ok());
}

#[test]
fn constant_fill_fills_every_parameter() {
    let base = empty_network();
    let sizes = [2usize, 3, 2];
    let fill = 1.5f32;
    let net = base.new(&sizes, Some(fill), &|| 0.0, 0.0).unwrap();
    for i in 0..2 {
        for row in &net.weights[i].data {
            assert_eq!(row.len(), sizes[i]);
            for &w in row {
                assert_eq!(w, fill);
            }
        }
        assert_eq!(net.weights[i].data.len(), sizes[i + 1]);
        for &b in &net.biases[i].data {
            assert_eq!(b, fill);
        }
    }
    for buffer in &net.activation_values {
        for &a in &buffer.data {
            assert_eq!(a, 0.0);
        }
    }
}

#[test]
fn generator_fill_draws_every_parameter() {
    let base = empty_network();
    let net = base
        .new(&[2usize, 2], None, &|| 0.5f32, 0.0)
        .unwrap();
    for row in &net.weights[0].data {
        for &w in row {
            assert_eq!(w, 0.5);
        }
    }
    for &b in &net.biases[0].data {
        assert_eq!(b, 0.5);
    }
}

#[test]
fn omitted_parts_are_synthesized_from_matrix_widths() {
    let weights = vec![Matrix {
        data: vec![vec![0.0f32, 0.0, 0.0], vec![0.0, 0.0, 0.0]],
    }];
    let net: NeuralNetwork<f32> = NeuralNetwork::new_from_vecs(weights, None, None, 0.0);
    // Synthesized biases and buffers take the width of the matrix's first
    // row, one per weight matrix.
    assert_eq!(net.biases.len(), 1);
    assert_eq!(net.biases[0].data, vec![0.0f32, 0.0, 0.0]);
    assert_eq!(net.activation_values.len(), 1);
    assert_eq!(net.activation_values[0].data, vec![0.0f32, 0.0, 0.0]);
}

#[test]
fn full_pass_computes_affine_chain() {
    // Layer widths 2, 3, 2: the rotating pair of buffers alternates
    // between the two widths.
    let base = empty_network();
    let mut net = base.new(&[2usize, 3, 2], Some(0.5f32), &|| 0.0, 0.0).unwrap();
    net.calculate_all_activation_values(
        ColumnVector { data: vec![1.0f32, 2.0] },
        &|a, b| a * b,
        &|a, b| a + b,
        0.0,
    );
    // Layer 1: 0.5 * (1 + 2) + 0.5 = 2.0 in each of the three slots;
    // layer 2: 0.5 * (2 + 2 + 2) + 0.5 = 3.5 in each of the two slots.
    assert_eq!(net.activation_values[0].data, vec![3.5f32, 3.5]);
    assert_eq!(net.activation_values[1].data, vec![2.0f32, 2.0, 2.0]);
}

#[test]
fn magnitude_squared_sums_squares() {
    let v = ColumnVector { data: vec![3.0f32, 4.0] };
    let m = v.magnitude_squared(&|a: f32, b: f32| a * b, &|a: f32, b: f32| a + b, 0.0);
    assert_eq!(m, 25.0);
}

#[test]
fn sub_writes_difference_into_buffer() {
    let a = ColumnVector { data: vec![5.0f32, 2.0] };
    let b = ColumnVector { data: vec![1.0f32, 7.0] };
    let mut out = ColumnVector { data: vec![0.0f32, 0.0] };
    a._sub(&b, &mut out, &|x: f32, y: f32| x - y);
    assert_eq!(out.data, vec![4.0f32, -5.0]);
}
