use one_hidden_layer_nn::error::NnError;
use one_hidden_layer_nn::matrix::{Matrix, Shape};
use one_hidden_layer_nn::parameters::{initialize_parameters, OneHiddenLayerNNParameters};

fn counting(n: u32) -> Vec<u32> {
    (1..=n).collect()
}

#[test]
fn initialize_parameters_gives_the_four_shapes() {
    let p = initialize_parameters(2, 4, 1, &counting(12)).unwrap();
    assert_eq!(p.w1.shape(), Shape { rows: 4, cols: 2 });
    assert_eq!(p.b1.shape(), Shape { rows: 4, cols: 1 });
    assert_eq!(p.w2.shape(), Shape { rows: 1, cols: 4 });
    assert_eq!(p.b2.shape(), Shape { rows: 1, cols: 1 });
    assert!(p.has_sizes(2, 4, 1));
    assert!(!p.has_sizes(4, 2, 1));
}

#[test]
fn initialize_parameters_gives_zero_biases() {
    let p = initialize_parameters(3, 5, 2, &counting(25)).unwrap();
    for i in 0..5 {
        assert_eq!(p.b1.get(i, 0), Some(0));
    }
    for i in 0..2 {
        assert_eq!(p.b2.get(i, 0), Some(0));
    }
}

#[test]
fn initialize_parameters_lays_the_draws_out_row_by_row() {
    let p = initialize_parameters(2, 4, 1, &counting(12)).unwrap();
    for i in 0..4 {
        for j in 0..2 {
            assert_eq!(p.w1.get(i, j), Some((i * 2 + j + 1) as u32));
        }
    }
    for j in 0..4 {
        assert_eq!(p.w2.get(0, j), Some((8 + j + 1) as u32));
    }
    let q = initialize_parameters(3, 2, 2, &counting(10)).unwrap();
    assert_eq!(q.w1.get(1, 2), Some(6));
    assert_eq!(q.w2.get(0, 0), Some(7));
    assert_eq!(q.w2.get(1, 0), Some(9));
    assert_eq!(q.w2.get(1, 1), Some(10));
}

#[test]
fn initialize_parameters_refuses_a_size_of_zero() {
    assert_eq!(initialize_parameters(0, 4, 1, &vec![0; 4]).unwrap_err(), NnError::InvalidShape);
    assert_eq!(initialize_parameters(2, 0, 1, &vec![]).unwrap_err(), NnError::InvalidShape);
    assert_eq!(initialize_parameters(2, 4, 0, &vec![0; 8]).unwrap_err(), NnError::InvalidShape);
}

#[test]
fn initialize_parameters_refuses_a_wrong_number_of_draws() {
    assert_eq!(initialize_parameters(2, 4, 1, &counting(11)).unwrap_err(), NnError::InvalidShape);
    assert_eq!(initialize_parameters(2, 4, 1, &counting(13)).unwrap_err(), NnError::InvalidShape);
    assert_eq!(initialize_parameters(2, 4, 1, &vec![]).unwrap_err(), NnError::InvalidShape);
}

#[test]
fn initialize_parameters_refuses_sizes_beyond_the_machine() {
    let r = initialize_parameters(usize::MAX, usize::MAX, 1, &counting(3));
    assert_eq!(r.unwrap_err(), NnError::InvalidShape);
    let r = initialize_parameters(1, usize::MAX, 1, &counting(3));
    assert_eq!(r.unwrap_err(), NnError::InvalidShape);
}

#[test]
fn parameters_with_a_nan_are_not_all_finite() {
    let mut draws = vec![0.5f32.to_bits(); 12];
    let p = initialize_parameters(2, 4, 1, &draws).unwrap();
    assert!(p.is_all_finite());
    draws[9] = f32::NAN.to_bits();
    let p = initialize_parameters(2, 4, 1, &draws).unwrap();
    assert!(!p.is_all_finite());
    let q = OneHiddenLayerNNParameters {
        w1: Matrix::zeros(4, 2),
        b1: Matrix::zeros(4, 1),
        w2: Matrix::zeros(1, 4),
        b2: Matrix::zeros(1, 2),
    };
    assert!(!q.has_sizes(2, 4, 1));
}
