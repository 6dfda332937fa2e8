//! The network: layers evaluated front to back and trained back to front.

use vstd::prelude::*;
use crate::scalar::{Scalar, in_unit_interval, non_negative};
use crate::activation::{relu_spec, relu_non_negative};
use crate::layer::Layer;
use crate::model::{
    NetworkView, well_formed, accepts_input, layer_fire, outputs, input_of, net_forward,
    layer_adjust, errors_of, net_backward,
};

verus! {

/// Why a call was turned down.
#[derive(Clone, Copy, Debug, PartialEq, Eq)]
pub enum NetworkError {
    /// A vector's length does not fit the width it is meant for.
    DimensionMismatch,
    /// A computation over at least one number was given none.
    EmptyInput,
}

pub struct Network<S: Scalar> {
    layers: Vec<Layer<S>>,
}

/// One neuron's computed adjustment: a step per weight and a step for the
/// bias. No operation of the network produces or consumes it yet.
#[derive(Clone)]
pub struct Gradient<S: Scalar> {
    pub weight: Vec<S>,
    pub bias: S,
}

impl<S: Scalar> View for Network<S> {
    type V = NetworkView<S>;

    closed spec fn view(&self) -> NetworkView<S> {
        Seq::new(self.layers@.len(), |i: int| self.layers@[i]@)
    }
}

/// The models of a list of layers, in order.
pub open spec fn layer_views<S: Scalar>(layers: Seq<Layer<S>>) -> NetworkView<S> {
    Seq::new(layers.len(), |i: int| layers[i]@)
}

impl<S: Scalar> Network<S> {
    /// The invariant of every network: its layers fit together.
    pub open spec fn wf(&self) -> bool {
        well_formed(self@)
    }

    /// A network of two random layers: `hidden_size` neurons with
    /// `input_size` weights each, then `output_size` neurons with
    /// `hidden_size` weights each. Every weight and bias lies in `[0, 1)`.
    pub fn new(input_size: usize, hidden_size: usize, output_size: usize) -> (net: Self)
        ensures
            net.wf(),
            net@.len() == 2,
            net@[0].len() == hidden_size,
            net@[1].len() == output_size,
            forall|j: int| 0 <= j < hidden_size ==> (#[trigger] net@[0][j]).weights.len() == input_size,
            forall|j: int| 0 <= j < output_size ==> (#[trigger] net@[1][j]).weights.len() == hidden_size,
            forall|i: int, j: int|
                0 <= i < 2 && 0 <= j < net@[i].len() ==> {
                    &&& in_unit_interval((#[trigger] net@[i][j]).bias)
                    &&& net@[i][j].output == S::zero_spec()
                    &&& net@[i][j].input_sum == S::zero_spec()
                    &&& forall|k: int|
                        0 <= k < net@[i][j].weights.len() ==> in_unit_interval(
                            #[trigger] net@[i][j].weights[k],
                        )
                },
    {
        let hidden_layer: Layer<S> = Layer::random(hidden_size, input_size);
        let output_layer: Layer<S> = Layer::random(output_size, hidden_size);
        let mut layers: Vec<Layer<S>> = Vec::new();
        layers.push(hidden_layer);
        layers.push(output_layer);
        Network { layers }
    }

    /// The network made of the given layers, if they fit together.
    pub fn from_layers(layers: Vec<Layer<S>>) -> (r: Result<Self, NetworkError>)
        ensures
            well_formed(layer_views(layers@)) ==> r is Ok && r.unwrap()@ == layer_views(layers@),
            !well_formed(layer_views(layers@)) ==> r == Err::<Self, NetworkError>(
                NetworkError::DimensionMismatch,
            ),
    {
        let ghost views = layer_views(layers@);
        let n = layers.len();
        if n == 0 {
            return Err(NetworkError::DimensionMismatch);
        }
        assert(views[0] == layers@[0]@);
        let first_width = layers[0].input_width();
        if !layers[0].has_width(first_width) {
            return Err(NetworkError::DimensionMismatch);
        }
        let mut i: usize = 1;
        while i < n
            invariant
                1 <= i <= n,
                n == layers@.len(),
                views == layer_views(layers@),
                forall|a: int, j: int|
                    1 <= a < i && 0 <= j < views[a].len() ==> (#[trigger] views[a][j]).weights.len()
                        == views[a - 1].len(),
            decreases n - i,
        {
            assert(views[i as int] == layers@[i as int]@);
            assert(views[i - 1] == layers@[i - 1]@);
            let width = layers[i - 1].len();
            if !layers[i].has_width(width) {
                return Err(NetworkError::DimensionMismatch);
            }
            i += 1;
        }
        let net = Network { layers };
        assert(net@ =~= views);
        Ok(net)
    }

    pub fn layers(&self) -> (ls: &Vec<Layer<S>>)
        ensures
            ls@.len() == self@.len(),
            forall|i: int| 0 <= i < ls@.len() ==> (#[trigger] ls@[i])@ == self@[i],
    {
        &self.layers
    }

    /// Evaluates the network on `inputs`, layer by layer, and returns the
    /// outputs that the last layer remembers. Every neuron's remembered sum
    /// and output are recomputed. An input of the wrong length is turned
    /// down and leaves the network as it was.
    pub fn forward(&mut self, inputs: Vec<S>) -> (r: Result<Vec<S>, NetworkError>)
        requires
            old(self).wf(),
        ensures
            final(self).wf(),
            accepts_input(old(self)@, inputs@.len()) ==> {
                &&& r is Ok
                &&& final(self)@ == net_forward(old(self)@, inputs@)
                &&& r.unwrap()@ == outputs(final(self)@.last())
                &&& r.unwrap()@.len() == old(self)@.last().len()
                &&& forall|j: int| 0 <= j < r.unwrap()@.len() ==> non_negative(#[trigger] r.unwrap()@[j])
                &&& forall|i: int, j: int|
                    0 <= i < final(self)@.len() && 0 <= j < final(self)@[i].len() ==> {
                        let neuron = #[trigger] final(self)@[i][j];
                        neuron.output == relu_spec(neuron.input_sum.add_spec(neuron.bias))
                    }
            },
            !accepts_input(old(self)@, inputs@.len()) ==> {
                &&& r == Err::<Vec<S>, NetworkError>(NetworkError::DimensionMismatch)
                &&& final(self)@ == old(self)@
            },
    {
        let ghost before = self@;
        let n = self.layers.len();
        assert(before[0] == self.layers@[0]@);
        if self.layers[0].len() != 0 && self.layers[0].input_width() != inputs.len() {
            return Err(NetworkError::DimensionMismatch);
        }
        let ghost x = inputs@;
        let mut current = inputs;
        let mut i: usize = 0;
        while i < n
            invariant
                i <= n,
                n == before.len(),
                self.layers@.len() == n,
                well_formed(before),
                accepts_input(before, x.len()),
                current@ == input_of(before, x, i as nat),
                i > 0 ==> current@.len() == before[i - 1].len(),
                i == 0 ==> current@ == x,
                forall|m: int|
                    0 <= m < i ==> (#[trigger] self.layers@[m])@ == layer_fire(
                        before[m],
                        input_of(before, x, m as nat),
                    ),
                forall|m: int| i <= m < n ==> (#[trigger] self.layers@[m])@ == before[m],
            decreases n - i,
        {
            assert(self.layers@[i as int]@ == before[i as int]);
            assert(forall|j: int|
                0 <= j < before[i as int].len() ==> (#[trigger] before[i as int][j]).weights.len()
                    == current@.len());
            let produced = self.layers[i].fire(&current);
            current = produced;
            i += 1;
        }
        assert(self@ =~= net_forward(before, x));
        let out = self.layers[n - 1].outputs();
        proof {
            assert(self@.last() == self.layers@[n - 1]@);
            assert forall|j: int| 0 <= j < out@.len() implies non_negative(#[trigger] out@[j]) by {
                let neuron = self@.last()[j];
                relu_non_negative(neuron.input_sum.add_spec(neuron.bias));
            }
        }
        Ok(out)
    }

    /// One training step towards `expected_output`, from what the latest
    /// forward pass left in the neurons. The layers are updated from the
    /// last to the first; each passes back errors through the weights it had
    /// before its update. A vector whose length is not the number of output
    /// neurons is turned down and leaves the network as it was.
    pub fn backpropagate(&mut self, expected_output: Vec<S>) -> (r: Result<(), NetworkError>)
        requires
            old(self).wf(),
        ensures
            final(self).wf(),
            expected_output@.len() == old(self)@.last().len() ==> {
                &&& r is Ok
                &&& final(self)@ == net_backward(old(self)@, expected_output@)
            },
            expected_output@.len() != old(self)@.last().len() ==> {
                &&& r == Err::<(), NetworkError>(NetworkError::DimensionMismatch)
                &&& final(self)@ == old(self)@
            },
    {
        let ghost before = self@;
        let ghost expected = expected_output@;
        let n = self.layers.len();
        assert(before.last() == self.layers@[n - 1]@);
        if self.layers[n - 1].len() != expected_output.len() {
            return Err(NetworkError::DimensionMismatch);
        }
        let mut errors = self.layers[n - 1].residuals(&expected_output);
        let mut i: usize = n;
        while i > 0
            invariant
                i <= n,
                n == before.len(),
                self.layers@.len() == n,
                well_formed(before),
                i > 0 ==> errors@ == errors_of(before, expected, i - 1),
                i > 0 ==> errors@.len() == before[i - 1].len(),
                forall|m: int|
                    i <= m < n ==> (#[trigger] self.layers@[m])@ == layer_adjust(
                        before[m],
                        errors_of(before, expected, m),
                    ),
                forall|m: int| 0 <= m < i ==> (#[trigger] self.layers@[m])@ == before[m],
            decreases i,
        {
            i -= 1;
            assert(self.layers@[i as int]@ == before[i as int]);
            let width = if i > 0 {
                assert(self.layers@[i - 1]@ == before[i - 1]);
                self.layers[i - 1].len()
            } else {
                self.layers[0].input_width()
            };
            assert(forall|j: int|
                0 <= j < before[i as int].len() ==> (#[trigger] before[i as int][j]).weights.len()
                    == width);
            let passed = self.layers[i].adjust(&errors, width);
            proof {
                if i > 0 {
                    assert(passed@ =~= errors_of(before, expected, i - 1));
                }
            }
            errors = passed;
        }
        assert(self@ =~= net_backward(before, expected));
        Ok(())
    }
}

} // verus!
