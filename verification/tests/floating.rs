use feedforward::network::{Network, NetworkError};
use feedforward::scalar::Scalar;
use feedforward::train::mse;

/// Double-precision numbers as the network's scalar.
#[derive(Clone, Copy, Debug, PartialEq)]
struct Real(f64);

impl Scalar for Real {
    fn zero_spec() -> Self {
        Real(0.0)
    }

    fn one_spec() -> Self {
        Real(1.0)
    }

    fn add_spec(self, rhs: Self) -> Self {
        Real(self.0 + rhs.0)
    }

    fn sub_spec(self, rhs: Self) -> Self {
        Real(self.0 - rhs.0)
    }

    fn mul_spec(self, rhs: Self) -> Self {
        Real(self.0 * rhs.0)
    }

    fn div_spec(self, rhs: Self) -> Self {
        Real(self.0 / rhs.0)
    }

    fn lt_spec(self, rhs: Self) -> bool {
        self.0 < rhs.0
    }

    fn count_spec(n: usize) -> Self {
        Real(n as f64)
    }

    fn unit_spec(word: u64) -> Self {
        Real((word >> 11) as f64 * (1.0 / (1u64 << 53) as f64))
    }

    fn lt_asymmetric(_a: Self, _b: Self) {}

    fn unit_in_range(_word: u64) {}

    fn zero() -> Self {
        Real(0.0)
    }

    fn one() -> Self {
        Real(1.0)
    }

    fn plus(self, rhs: Self) -> Self {
        Real(self.0 + rhs.0)
    }

    fn minus(self, rhs: Self) -> Self {
        Real(self.0 - rhs.0)
    }

    fn times(self, rhs: Self) -> Self {
        Real(self.0 * rhs.0)
    }

    fn over(self, rhs: Self) -> Self {
        Real(self.0 / rhs.0)
    }

    fn less_than(self, rhs: Self) -> bool {
        self.0 < rhs.0
    }

    fn from_count(n: usize) -> Self {
        Real(n as f64)
    }

    fn from_unit_word(word: u64) -> Self {
        Real((word >> 11) as f64 * (1.0 / (1u64 << 53) as f64))
    }
}

fn reals(values: &[f64]) -> Vec<Real> {
    values.iter().map(|&v| Real(v)).collect()
}

#[test]
fn it_works() {
    let mut network: Network<Real> = Network::new(3, 3, 1);

    let inputs = reals(&[0.5, 0.1, 0.8]);
    let expected_output = reals(&[0.7]);

    network.forward(inputs.clone()).unwrap();
    network.backpropagate(expected_output.clone()).unwrap();

    let final_output = network.forward(inputs).unwrap();
    assert!(
        (final_output[0].0 - expected_output[0].0).abs() < 1.0,
        "Training decreases error"
    );
}

#[test]
fn trained_output_is_finite() {
    let mut network: Network<Real> = Network::new(3, 3, 1);
    let inputs = reals(&[0.5, 0.1, 0.8]);
    network.forward(inputs.clone()).unwrap();
    network.backpropagate(reals(&[0.7])).unwrap();
    let out = network.forward(inputs).unwrap();
    assert_eq!(out.len(), 1);
    assert!(out[0].0.is_finite());
    assert!(out[0].0 >= 0.0);
}

#[test]
fn random_parameters_lie_in_unit_interval() {
    let network: Network<Real> = Network::new(5, 4, 3);
    for layer in network.layers().iter() {
        for neuron in layer.neurons().iter() {
            assert!(neuron.bias().0 >= 0.0 && neuron.bias().0 < 1.0);
            for w in neuron.weights().iter() {
                assert!(w.0 >= 0.0 && w.0 < 1.0);
            }
        }
    }
}

#[test]
fn random_draws_differ() {
    let network: Network<Real> = Network::new(8, 8, 1);
    let first = network.layers()[0].neurons()[0].weights()[0];
    let mut all_equal = true;
    for neuron in network.layers()[0].neurons().iter() {
        for w in neuron.weights().iter() {
            if *w != first {
                all_equal = false;
            }
        }
    }
    assert!(!all_equal);
}

#[test]
fn unit_word_ends_of_range() {
    assert_eq!(Real::from_unit_word(0), Real(0.0));
    assert!(Real::from_unit_word(u64::MAX).0 < 1.0);
}

#[test]
fn mse_of_three_and_minus_four() {
    assert_eq!(mse(&reals(&[3.0, -4.0])), Ok(Real(12.5)));
}

#[test]
fn mse_of_nothing_is_rejected_for_reals() {
    let none: Vec<Real> = Vec::new();
    assert_eq!(mse(&none), Err(NetworkError::EmptyInput));
}

#[test]
fn forward_twice_gives_same_reals() {
    let mut network: Network<Real> = Network::new(4, 6, 3);
    let inputs = reals(&[0.25, -1.5, 3.0, 0.0]);
    let first = network.forward(inputs.clone()).unwrap();
    let second = network.forward(inputs).unwrap();
    assert_eq!(first, second);
    assert_eq!(first.len(), 3);
    for v in first.iter() {
        assert!(v.0 >= 0.0);
    }
}

#[test]
fn wrong_input_length_is_rejected_for_reals() {
    let mut network: Network<Real> = Network::new(3, 3, 1);
    assert_eq!(
        network.forward(reals(&[0.5, 0.1])),
        Err(NetworkError::DimensionMismatch)
    );
    assert_eq!(
        network.backpropagate(reals(&[0.7, 0.1])),
        Err(NetworkError::DimensionMismatch)
    );
}

#[test]
fn training_reduces_error_for_most_random_networks() {
    let trials = 200;
    let mut improved = 0;
    for _ in 0..trials {
        let mut network: Network<Real> = Network::new(3, 3, 1);
        let inputs = reals(&[0.5, 0.1, 0.8]);
        let before = network.forward(inputs.clone()).unwrap();
        network.backpropagate(reals(&[0.7])).unwrap();
        let after = network.forward(inputs).unwrap();
        assert!(after[0].0.is_finite());
        if (after[0].0 - 0.7).abs() <= (before[0].0 - 0.7).abs() {
            improved += 1;
        }
    }
    assert!(2 * improved > trials);
}
