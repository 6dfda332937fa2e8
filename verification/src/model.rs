//! The mathematical model of a network and of its two passes.
//!
//! A network is modelled as a sequence of layers, a layer as a sequence of
//! neurons, and a neuron as its weights, its bias and the two values it
//! remembers from the latest forward pass.

use vstd::prelude::*;
use crate::scalar::Scalar;
use crate::activation::{relu_spec, relu_derivative_spec};

verus! {

/// What a neuron holds.
pub struct NeuronView<S> {
    pub weights: Seq<S>,
    pub bias: S,
    pub output: S,
    pub input_sum: S,
}

pub type LayerView<S> = Seq<NeuronView<S>>;

pub type NetworkView<S> = Seq<Seq<NeuronView<S>>>;

/// The layers fit together: there is at least one layer, the neurons of the
/// first layer agree on their number of weights, and every neuron of a later
/// layer has one weight per neuron of the layer before it.
pub open spec fn well_formed<S>(net: NetworkView<S>) -> bool {
    &&& net.len() >= 1
    &&& forall|j: int|
        0 <= j < net[0].len() ==> (#[trigger] net[0][j]).weights.len() == net[0][0].weights.len()
    &&& forall|i: int, j: int|
        1 <= i < net.len() && 0 <= j < net[i].len() ==> (#[trigger] net[i][j]).weights.len()
            == net[i - 1].len()
}

/// An input of `n` numbers suits the network: every neuron of the first
/// layer has `n` weights.
pub open spec fn accepts_input<S>(net: NetworkView<S>, n: nat) -> bool {
    net[0].len() == 0 || net[0][0].weights.len() == n
}

/// Two networks have the same shape, weights and biases.
pub open spec fn same_parameters<S>(a: NetworkView<S>, b: NetworkView<S>) -> bool {
    &&& a.len() == b.len()
    &&& forall|i: int| 0 <= i < a.len() ==> (#[trigger] a[i]).len() == b[i].len()
    &&& forall|i: int, j: int|
        0 <= i < a.len() && 0 <= j < a[i].len() ==> (#[trigger] a[i][j]).weights == b[i][j].weights
            && a[i][j].bias == b[i][j].bias
}

/// Sum of the first `n` products `w[k] * x[k]`, added up from the left,
/// starting at zero.
pub open spec fn dot<S: Scalar>(w: Seq<S>, x: Seq<S>, n: nat) -> S
    decreases n,
{
    if n == 0 {
        S::zero_spec()
    } else {
        dot(w, x, (n - 1) as nat).add_spec(w[n - 1].mul_spec(x[n - 1]))
    }
}

/// A neuron after it has seen the input `x`: the weighted sum is remembered
/// without the bias, the output is the rectified sum plus bias.
pub open spec fn fire<S: Scalar>(n: NeuronView<S>, x: Seq<S>) -> NeuronView<S> {
    let sum = dot(n.weights, x, n.weights.len());
    NeuronView {
        weights: n.weights,
        bias: n.bias,
        output: relu_spec(sum.add_spec(n.bias)),
        input_sum: sum,
    }
}

/// A layer after each of its neurons has seen `x`.
pub open spec fn layer_fire<S: Scalar>(l: LayerView<S>, x: Seq<S>) -> LayerView<S> {
    Seq::new(l.len(), |j: int| fire(l[j], x))
}

/// The remembered outputs of a layer, in neuron order.
pub open spec fn outputs<S>(l: LayerView<S>) -> Seq<S> {
    Seq::new(l.len(), |j: int| l[j].output)
}

/// What layer `i` is fed when the network is given `x`: `x` itself for the
/// first layer, the outputs of the layer before for every other.
pub open spec fn input_of<S: Scalar>(net: NetworkView<S>, x: Seq<S>, i: nat) -> Seq<S>
    decreases i,
{
    if i == 0 {
        x
    } else {
        outputs(layer_fire(net[i - 1], input_of(net, x, (i - 1) as nat)))
    }
}

/// The network after a forward pass on `x`.
pub open spec fn net_forward<S: Scalar>(net: NetworkView<S>, x: Seq<S>) -> NetworkView<S> {
    Seq::new(net.len(), |i: int| layer_fire(net[i], input_of(net, x, i as nat)))
}

/// The error of a neuron scaled by the slope of the rectifier at the
/// remembered weighted sum.
pub open spec fn local_gradient<S: Scalar>(n: NeuronView<S>, error: S) -> S {
    error.mul_spec(relu_derivative_spec(n.input_sum))
}

/// A neuron after one update: every weight grows by the neuron's own output
/// times its local gradient, the bias by the local gradient. No learning
/// rate scales the step.
pub open spec fn adjust<S: Scalar>(n: NeuronView<S>, error: S) -> NeuronView<S> {
    let g = local_gradient(n, error);
    NeuronView {
        weights: Seq::new(n.weights.len(), |k: int| n.weights[k].add_spec(n.output.mul_spec(g))),
        bias: n.bias.add_spec(g),
        output: n.output,
        input_sum: n.input_sum,
    }
}

/// A layer after each neuron has been updated with its own error.
pub open spec fn layer_adjust<S: Scalar>(l: LayerView<S>, errors: Seq<S>) -> LayerView<S> {
    Seq::new(l.len(), |j: int| adjust(l[j], errors[j]))
}

/// The error that the first `n` neurons of a layer pass back along their
/// `k`-th weight: the sum of `errors[j] * weights[j][k]`, added up from the
/// left, starting at zero.
pub open spec fn passed_back<S: Scalar>(l: LayerView<S>, errors: Seq<S>, k: int, n: nat) -> S
    decreases n,
{
    if n == 0 {
        S::zero_spec()
    } else {
        passed_back(l, errors, k, (n - 1) as nat).add_spec(
            errors[n - 1].mul_spec(l[n - 1].weights[k]),
        )
    }
}

/// The signed residuals of a layer: expected minus remembered output.
pub open spec fn residuals<S: Scalar>(l: LayerView<S>, expected: Seq<S>) -> Seq<S> {
    Seq::new(l.len(), |j: int| expected[j].sub_spec(l[j].output))
}

/// The errors that reach layer `i`: the residuals at the last layer, and at
/// every other layer what the layer after it passes back through the
/// weights it had before the update.
pub open spec fn errors_of<S: Scalar>(net: NetworkView<S>, expected: Seq<S>, i: int) -> Seq<S>
    decreases net.len() - i,
{
    if i >= net.len() - 1 {
        residuals(net.last(), expected)
    } else {
        let later = errors_of(net, expected, i + 1);
        Seq::new(net[i].len(), |k: int| passed_back(net[i + 1], later, k, net[i + 1].len()))
    }
}

/// The network after one backpropagation step towards `expected`.
pub open spec fn net_backward<S: Scalar>(net: NetworkView<S>, expected: Seq<S>) -> NetworkView<S> {
    Seq::new(net.len(), |i: int| layer_adjust(net[i], errors_of(net, expected, i)))
}

} // verus!
