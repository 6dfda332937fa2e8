use feedforward::activation::{relu, relu_derivative};
use feedforward::fixed::Fixed;
use feedforward::layer::Layer;
use feedforward::network::{Network, NetworkError};
use feedforward::neuron::{dot_product, Neuron};
use feedforward::scalar::Scalar;
use feedforward::train::mse;

const ONE: i64 = 65536;

/// The fixed-point number `halves / 2`.
fn fx(halves: i64) -> Fixed {
    Fixed::from_raw(halves * (ONE / 2))
}

fn fxs(halves: &[i64]) -> Vec<Fixed> {
    halves.iter().map(|&h| fx(h)).collect()
}

/// Hidden neuron with weights 1 and 2 and bias 0.5, output neuron with
/// weight 3 and bias 0.
fn small_network() -> Network<Fixed> {
    let hidden = Layer::new(vec![Neuron::new(fxs(&[2, 4]), fx(1))]);
    let output = Layer::new(vec![Neuron::new(fxs(&[6]), fx(0))]);
    Network::from_layers(vec![hidden, output]).unwrap()
}

#[test]
fn new_network_has_requested_dimensions() {
    let network: Network<Fixed> = Network::new(3, 4, 2);
    let layers = network.layers();
    assert_eq!(layers.len(), 2);
    assert_eq!(layers[0].len(), 4);
    for neuron in layers[0].neurons().iter() {
        assert_eq!(neuron.weights().len(), 3);
    }
    assert_eq!(layers[1].len(), 2);
    for neuron in layers[1].neurons().iter() {
        assert_eq!(neuron.weights().len(), 4);
    }
}

#[test]
fn new_network_parameters_in_unit_interval_and_memory_zero() {
    let network: Network<Fixed> = Network::new(3, 4, 2);
    for layer in network.layers().iter() {
        for neuron in layer.neurons().iter() {
            assert!(neuron.bias().raw() >= 0 && neuron.bias().raw() < ONE);
            assert_eq!(neuron.output(), Fixed::zero());
            assert_eq!(neuron.input_sum(), Fixed::zero());
            for w in neuron.weights().iter() {
                assert!(w.raw() >= 0 && w.raw() < ONE);
            }
        }
    }
}

#[test]
fn zero_sizes_are_accepted() {
    let mut network: Network<Fixed> = Network::new(3, 0, 2);
    assert_eq!(network.layers()[0].len(), 0);
    let out = network.forward(fxs(&[1, 2, 3])).unwrap();
    assert_eq!(out.len(), 2);
    let biases: Vec<Fixed> = network.layers()[1].neurons().iter().map(|n| n.bias()).collect();
    assert_eq!(out, biases);
    assert_eq!(network.backpropagate(fxs(&[1, 1])), Ok(()));

    let mut no_output: Network<Fixed> = Network::new(2, 3, 0);
    assert_eq!(no_output.forward(fxs(&[1, 2])), Ok(vec![]));
    assert_eq!(no_output.backpropagate(vec![]), Ok(()));
}

#[test]
fn forward_exact_values() {
    let mut network = small_network();
    let out = network.forward(fxs(&[2, 2])).unwrap();
    assert_eq!(out, vec![fx(21)]);
    let hidden = &network.layers()[0].neurons()[0];
    assert_eq!(hidden.input_sum(), fx(6));
    assert_eq!(hidden.output(), fx(7));
    let last = &network.layers()[1].neurons()[0];
    assert_eq!(last.input_sum(), fx(21));
    assert_eq!(last.output(), fx(21));
}

#[test]
fn backpropagate_exact_values() {
    let mut network = small_network();
    network.forward(fxs(&[2, 2])).unwrap();
    assert_eq!(network.backpropagate(fxs(&[23])), Ok(()));
    let last = &network.layers()[1].neurons()[0];
    assert_eq!(last.weights(), &fxs(&[27]));
    assert_eq!(last.bias(), fx(2));
    assert_eq!(last.output(), fx(21));
    assert_eq!(last.input_sum(), fx(21));
    let hidden = &network.layers()[0].neurons()[0];
    assert_eq!(hidden.weights(), &fxs(&[23, 25]));
    assert_eq!(hidden.bias(), fx(7));
}

#[test]
fn backpropagate_passes_errors_through_old_weights() {
    let hidden = Layer::new(vec![Neuron::new(fxs(&[2]), fx(0)), Neuron::new(fxs(&[4]), fx(0))]);
    let output = Layer::new(vec![
        Neuron::new(fxs(&[2, 0]), fx(0)),
        Neuron::new(fxs(&[2, 2]), fx(0)),
    ]);
    let mut network = Network::from_layers(vec![hidden, output]).unwrap();
    let out = network.forward(fxs(&[2])).unwrap();
    assert_eq!(out, fxs(&[2, 6]));
    network.backpropagate(fxs(&[4, 4])).unwrap();
    let last = network.layers()[1].neurons();
    assert_eq!(last[0].weights(), &fxs(&[4, 2]));
    assert_eq!(last[0].bias(), fx(2));
    assert_eq!(last[1].weights(), &fxs(&[-4, -4]));
    assert_eq!(last[1].bias(), fx(-2));
    let first = network.layers()[0].neurons();
    assert_eq!(first[0].weights(), &fxs(&[2]));
    assert_eq!(first[0].bias(), fx(0));
    assert_eq!(first[1].weights(), &fxs(&[0]));
    assert_eq!(first[1].bias(), fx(-2));
}

#[test]
fn gradient_vanishes_where_sum_is_not_positive() {
    let layer = Layer::new(vec![Neuron::new(fxs(&[2]), fx(4))]);
    let mut network = Network::from_layers(vec![layer]).unwrap();
    let out = network.forward(fxs(&[0])).unwrap();
    assert_eq!(out, fxs(&[4]));
    network.backpropagate(fxs(&[10])).unwrap();
    let neuron = &network.layers()[0].neurons()[0];
    assert_eq!(neuron.weights(), &fxs(&[2]));
    assert_eq!(neuron.bias(), fx(4));
}

#[test]
fn forward_is_repeatable_and_non_negative() {
    let mut network: Network<Fixed> = Network::new(3, 5, 2);
    let inputs = fxs(&[1, -3, 8]);
    let first = network.forward(inputs.clone()).unwrap();
    let second = network.forward(inputs).unwrap();
    assert_eq!(first, second);
    assert_eq!(first.len(), 2);
    for v in first.iter() {
        assert!(v.raw() >= 0);
    }
}

#[test]
fn memory_matches_rectified_sum_plus_bias() {
    let mut network: Network<Fixed> = Network::new(3, 5, 2);
    network.forward(fxs(&[1, -3, 8])).unwrap();
    let mut fed = fxs(&[1, -3, 8]);
    for layer in network.layers().iter() {
        for neuron in layer.neurons().iter() {
            assert_eq!(neuron.input_sum(), dot_product(neuron.weights(), &fed));
            assert_eq!(neuron.output(), relu(neuron.input_sum().plus(neuron.bias())));
        }
        fed = layer.outputs();
    }
}

#[test]
fn training_step_moves_output_towards_larger_target() {
    let hidden = Layer::new(vec![
        Neuron::new(fxs(&[1, 2]), fx(0)),
        Neuron::new(fxs(&[3, 1]), fx(0)),
    ]);
    let output = Layer::new(vec![Neuron::new(fxs(&[1, 1]), fx(0))]);
    let mut network = Network::from_layers(vec![hidden, output]).unwrap();
    let before = network.forward(fxs(&[2, 1])).unwrap();
    assert!(network.layers()[1].neurons()[0].input_sum().raw() > 0);
    network.backpropagate(vec![before[0].plus(fx(1))]).unwrap();
    let after = network.forward(fxs(&[2, 1])).unwrap();
    assert!(after[0].raw() >= before[0].raw());
}

#[test]
fn wrong_lengths_are_rejected_and_change_nothing() {
    let mut network = small_network();
    network.forward(fxs(&[2, 2])).unwrap();
    assert_eq!(network.forward(fxs(&[2])), Err(NetworkError::DimensionMismatch));
    assert_eq!(network.forward(fxs(&[2, 2, 2])), Err(NetworkError::DimensionMismatch));
    assert_eq!(network.backpropagate(vec![]), Err(NetworkError::DimensionMismatch));
    assert_eq!(network.backpropagate(fxs(&[1, 2])), Err(NetworkError::DimensionMismatch));
    assert_eq!(network.layers()[1].neurons()[0].output(), fx(21));
    assert_eq!(network.layers()[1].neurons()[0].weights(), &fxs(&[6]));
}

#[test]
fn layers_that_do_not_fit_are_rejected() {
    let none: Vec<Layer<Fixed>> = Vec::new();
    assert!(matches!(Network::from_layers(none), Err(NetworkError::DimensionMismatch)));

    let ragged = Layer::new(vec![Neuron::new(fxs(&[2, 4]), fx(0)), Neuron::new(fxs(&[2]), fx(0))]);
    assert!(matches!(Network::from_layers(vec![ragged]), Err(NetworkError::DimensionMismatch)));

    let hidden = Layer::new(vec![Neuron::new(fxs(&[2, 4]), fx(0))]);
    let output = Layer::new(vec![Neuron::new(fxs(&[2, 4]), fx(0))]);
    assert!(matches!(
        Network::from_layers(vec![hidden, output]),
        Err(NetworkError::DimensionMismatch)
    ));
}

#[test]
fn layer_width_queries() {
    let layer = Layer::new(vec![Neuron::new(fxs(&[2, 4]), fx(0)), Neuron::new(fxs(&[1, 1]), fx(0))]);
    assert_eq!(layer.len(), 2);
    assert_eq!(layer.input_width(), 2);
    assert!(layer.has_width(2));
    assert!(!layer.has_width(3));
    let empty: Layer<Fixed> = Layer::new(vec![]);
    assert_eq!(empty.input_width(), 0);
    assert!(empty.has_width(7));
}

#[test]
fn relu_values() {
    assert_eq!(relu(fx(5)), fx(5));
    assert_eq!(relu(fx(0)), fx(0));
    assert_eq!(relu(fx(-5)), fx(0));
}

#[test]
fn relu_derivative_values() {
    assert_eq!(relu_derivative(fx(5)), fx(2));
    assert_eq!(relu_derivative(fx(0)), fx(0));
    assert_eq!(relu_derivative(fx(-5)), fx(0));
    assert_eq!(relu_derivative(Fixed::from_raw(1)), fx(2));
}

#[test]
fn mse_exact_value() {
    assert_eq!(mse(&fxs(&[6, -8])), Ok(fx(25)));
}

#[test]
fn mse_of_nothing_is_rejected() {
    let none: Vec<Fixed> = Vec::new();
    assert_eq!(mse(&none), Err(NetworkError::EmptyInput));
}

#[test]
fn dot_product_exact_value() {
    assert_eq!(dot_product(&fxs(&[2, 4, -6]), &fxs(&[1, 1, 2])), fx(-3));
    assert_eq!(dot_product(&fxs(&[]), &fxs(&[])), fx(0));
}

#[test]
fn fixed_arithmetic() {
    assert_eq!(Fixed::zero().raw(), 0);
    assert_eq!(Fixed::one().raw(), ONE);
    assert_eq!(fx(3).plus(fx(4)), fx(7));
    assert_eq!(fx(3).minus(fx(4)), fx(-1));
    assert_eq!(fx(3).times(fx(5)), Fixed::from_raw(15 * ONE / 4));
    assert_eq!(fx(-3).times(fx(5)), Fixed::from_raw(-15 * ONE / 4));
    assert_eq!(fx(3).over(fx(4)), Fixed::from_raw(3 * ONE / 4));
    assert_eq!(Fixed::from_raw(-1).times(Fixed::from_raw(1)), Fixed::from_raw(-1));
    assert_eq!(Fixed::from_raw(-1).over(fx(4)), Fixed::from_raw(-1));
    assert!(fx(3).less_than(fx(4)));
    assert!(!fx(4).less_than(fx(4)));
    assert_eq!(Fixed::from_count(3), fx(6));
}

#[test]
fn fixed_saturates() {
    let max = Fixed::from_raw(i64::MAX);
    let min = Fixed::from_raw(i64::MIN);
    assert_eq!(max.plus(fx(1)), max);
    assert_eq!(min.minus(fx(1)), min);
    assert_eq!(max.times(fx(4)), max);
    assert_eq!(max.times(fx(-4)), min);
    assert_eq!(min.times(min), max);
    assert_eq!(max.over(Fixed::from_raw(1)), max);
    assert_eq!(fx(1).over(fx(0)), max);
    assert_eq!(fx(-1).over(fx(0)), min);
    assert_eq!(fx(0).over(fx(0)), fx(0));
    assert_eq!(Fixed::from_count(usize::MAX), max);
}

#[test]
fn fixed_unit_word() {
    assert_eq!(Fixed::from_unit_word(0), Fixed::from_raw(0));
    assert_eq!(Fixed::from_unit_word(u64::MAX), Fixed::from_raw(ONE - 1));
    assert_eq!(Fixed::from_unit_word(1u64 << 63), fx(1));
}

#[test]
fn neuron_from_words() {
    let neuron: Neuron<Fixed> = Neuron::from_words(&vec![0, 1u64 << 63, u64::MAX], 1u64 << 62);
    assert_eq!(
        neuron.weights(),
        &vec![Fixed::from_raw(0), fx(1), Fixed::from_raw(ONE - 1)]
    );
    assert_eq!(neuron.bias(), Fixed::from_raw(ONE / 4));
    assert_eq!(neuron.output(), fx(0));
    assert_eq!(neuron.input_sum(), fx(0));
}

#[test]
fn negative_input_can_lower_output_after_training() {
    let eighth = Fixed::from_raw(ONE / 8);
    let hidden = Layer::new(vec![Neuron::new(vec![fx(4), eighth], fx(0))]);
    let output = Layer::new(vec![Neuron::new(fxs(&[2]), fx(0))]);
    let mut network = Network::from_layers(vec![hidden, output]).unwrap();
    let inputs = fxs(&[2, -20]);
    let before = network.forward(inputs.clone()).unwrap();
    assert_eq!(before, vec![Fixed::from_raw(3 * ONE / 4)]);
    network.backpropagate(vec![Fixed::from_raw(5 * ONE / 4)]).unwrap();
    let after = network.forward(inputs).unwrap();
    assert_eq!(after, vec![fx(1)]);
}

#[test]
fn gradient_is_a_plain_pair() {
    let gradient = feedforward::Gradient { weight: fxs(&[1, 2]), bias: fx(3) };
    let copy = gradient.clone();
    assert_eq!(copy.weight, fxs(&[1, 2]));
    assert_eq!(copy.bias, fx(3));
}

#[test]
fn crate_root_names_the_main_items() {
    let mut network: feedforward::Network<Fixed> = feedforward::Network::new(2, 2, 1);
    assert_eq!(
        network.forward(fxs(&[1])),
        Err(feedforward::NetworkError::DimensionMismatch)
    );
    assert_eq!(feedforward::mse(&fxs(&[2])), Ok(fx(2)));
}
