//! A single neuron: weights, a bias, and what the latest forward pass left.

use vstd::prelude::*;
use crate::scalar::{Scalar, in_unit_interval};
use crate::activation::{relu, relu_derivative};
use crate::model::{NeuronView, dot, fire, adjust};

verus! {

pub struct Neuron<S: Scalar> {
    weights: Vec<S>,
    bias: S,
    output: S,
    input_sum: S,
}

impl<S: Scalar> View for Neuron<S> {
    type V = NeuronView<S>;

    closed spec fn view(&self) -> NeuronView<S> {
        NeuronView {
            weights: self.weights@,
            bias: self.bias,
            output: self.output,
            input_sum: self.input_sum,
        }
    }
}

/// A word from the thread-local generator of `rand`, through
/// `rand::random::<u64>()`. Nothing is claimed of the word.
#[verifier::external_body]
fn random_word() -> u64 {
    rand::random::<u64>()
}

/// Left-to-right sum of the products of two equally long vectors.
pub fn dot_product<S: Scalar>(w: &Vec<S>, x: &Vec<S>) -> (sum: S)
    requires
        w@.len() == x@.len(),
    ensures
        sum == dot(w@, x@, w@.len()),
{
    let n = w.len();
    let mut sum = S::zero();
    let mut k: usize = 0;
    while k < n
        invariant
            k <= n,
            n == w@.len(),
            n == x@.len(),
            sum == dot(w@, x@, k as nat),
        decreases n - k,
    {
        sum = sum.plus(w[k].times(x[k]));
        k += 1;
    }
    sum
}

impl<S: Scalar> Neuron<S> {
    /// A neuron with the given weights and bias that has seen no input yet:
    /// both remembered values are zero.
    pub fn new(weights: Vec<S>, bias: S) -> (n: Self)
        ensures
            n@ == (NeuronView {
                weights: weights@,
                bias: bias,
                output: S::zero_spec(),
                input_sum: S::zero_spec(),
            }),
    {
        Neuron { weights, bias, output: S::zero(), input_sum: S::zero() }
    }

    /// The neuron that the given words stand for: one weight per word of
    /// `words`, in order, and the bias from `bias_word`, each mapped into
    /// `[0, 1)`. It has seen no input yet.
    pub fn from_words(words: &Vec<u64>, bias_word: u64) -> (n: Self)
        ensures
            n@.weights == Seq::new(words@.len(), |k: int| S::unit_spec(words@[k])),
            n@.bias == S::unit_spec(bias_word),
            n@.output == S::zero_spec(),
            n@.input_sum == S::zero_spec(),
    {
        let count = words.len();
        let mut weights: Vec<S> = Vec::new();
        let mut k: usize = 0;
        while k < count
            invariant
                k <= count,
                count == words@.len(),
                weights@.len() == k,
                forall|m: int| 0 <= m < k ==> #[trigger] weights@[m] == S::unit_spec(words@[m]),
            decreases count - k,
        {
            weights.push(S::from_unit_word(words[k]));
            k += 1;
        }
        assert(weights@ =~= Seq::new(words@.len(), |k: int| S::unit_spec(words@[k])));
        Neuron {
            weights,
            bias: S::from_unit_word(bias_word),
            output: S::zero(),
            input_sum: S::zero(),
        }
    }

    /// A neuron with `input_size` weights. The words for the weights, then
    /// the word for the bias, are drawn one by one from the random
    /// generator, so every weight and the bias lie in `[0, 1)`.
    pub fn random(input_size: usize) -> (n: Self)
        ensures
            n@.weights.len() == input_size,
            forall|k: int| 0 <= k < input_size ==> in_unit_interval(#[trigger] n@.weights[k]),
            in_unit_interval(n@.bias),
            n@.output == S::zero_spec(),
            n@.input_sum == S::zero_spec(),
    {
        let mut words: Vec<u64> = Vec::new();
        let mut k: usize = 0;
        while k < input_size
            invariant
                k <= input_size,
                words@.len() == k,
            decreases input_size - k,
        {
            words.push(random_word());
            k += 1;
        }
        let bias_word = random_word();
        let n = Neuron::from_words(&words, bias_word);
        proof {
            S::unit_in_range(bias_word);
            assert forall|k: int| 0 <= k < input_size implies in_unit_interval(
                #[trigger] n@.weights[k],
            ) by {
                S::unit_in_range(words@[k]);
            }
        }
        n
    }

    pub fn weights(&self) -> (w: &Vec<S>)
        ensures
            w@ == self@.weights,
    {
        &self.weights
    }

    pub fn bias(&self) -> (b: S)
        ensures
            b == self@.bias,
    {
        self.bias
    }

    /// The activated value of the latest forward pass.
    pub fn output(&self) -> (v: S)
        ensures
            v == self@.output,
    {
        self.output
    }

    /// The weighted sum of the latest forward pass, without the bias.
    pub fn input_sum(&self) -> (v: S)
        ensures
            v == self@.input_sum,
    {
        self.input_sum
    }

    /// Evaluates the neuron on `inputs`, remembers the weighted sum and the
    /// activated value, and returns the latter.
    pub fn fire(&mut self, inputs: &Vec<S>) -> (out: S)
        requires
            inputs@.len() == old(self)@.weights.len(),
        ensures
            final(self)@ == fire(old(self)@, inputs@),
            out == final(self)@.output,
    {
        let sum = dot_product(&self.weights, inputs);
        self.input_sum = sum;
        let out = relu(sum.plus(self.bias));
        self.output = out;
        out
    }

    /// Updates the neuron with its `error`. Before a weight changes, `error`
    /// times that weight is added to the matching entry of `passed`.
    pub fn adjust(&mut self, error: S, passed: &mut Vec<S>)
        requires
            old(passed)@.len() == old(self)@.weights.len(),
        ensures
            final(self)@ == adjust(old(self)@, error),
            final(passed)@.len() == old(passed)@.len(),
            forall|k: int|
                0 <= k < old(passed)@.len() ==> #[trigger] final(passed)@[k] == old(passed)@[k].add_spec(
                    error.mul_spec(old(self)@.weights[k]),
                ),
    {
        let ghost before = self@;
        let ghost passed_before = passed@;
        let gradient = error.times(relu_derivative(self.input_sum));
        let step = self.output.times(gradient);
        let n = self.weights.len();
        let mut k: usize = 0;
        while k < n
            invariant
                k <= n,
                n == before.weights.len(),
                self.weights@.len() == n,
                passed@.len() == n,
                passed_before.len() == n,
                self.bias == before.bias,
                self.output == before.output,
                self.input_sum == before.input_sum,
                forall|m: int|
                    0 <= m < k ==> #[trigger] self.weights@[m] == before.weights[m].add_spec(step),
                forall|m: int| k <= m < n ==> #[trigger] self.weights@[m] == before.weights[m],
                forall|m: int|
                    0 <= m < k ==> #[trigger] passed@[m] == passed_before[m].add_spec(
                        error.mul_spec(before.weights[m]),
                    ),
                forall|m: int| k <= m < n ==> #[trigger] passed@[m] == passed_before[m],
            decreases n - k,
        {
            let weight = self.weights[k];
            let carried = passed[k];
            passed[k] = carried.plus(error.times(weight));
            self.weights[k] = weight.plus(step);
            k += 1;
        }
        self.bias = self.bias.plus(gradient);
        assert(self@.weights =~= adjust(before, error).weights);
    }
}

} // verus!
