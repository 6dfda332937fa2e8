//! Facts about the forward pass that hold for every network and every
//! number type.

use vstd::prelude::*;
use crate::scalar::{Scalar, non_negative};
use crate::activation::{relu_spec, relu_non_negative};
use crate::model::{
    NetworkView, same_parameters, layer_fire, outputs, input_of, net_forward, well_formed,
    net_backward,
};

verus! {

/// Networks with the same parameters feed each of their layers the same
/// input.
proof fn same_layer_inputs<S: Scalar>(a: NetworkView<S>, b: NetworkView<S>, x: Seq<S>, i: nat)
    requires
        same_parameters(a, b),
        i <= a.len(),
    ensures
        input_of(a, x, i) == input_of(b, x, i),
    decreases i,
{
    if i > 0 {
        let m = (i - 1) as nat;
        same_layer_inputs(a, b, x, m);
        let fed = input_of(a, x, m);
        assert(a[m as int].len() == b[m as int].len());
        assert forall|j: int| 0 <= j < a[m as int].len() implies (#[trigger] a[m as int][j]).weights
            == b[m as int][j].weights && a[m as int][j].bias == b[m as int][j].bias by {}
        assert(layer_fire(a[m as int], fed) =~= layer_fire(b[m as int], fed));
    }
}

/// A forward pass reads weights and biases only: what the neurons remember
/// from earlier passes has no influence on the result.
pub proof fn forward_reads_parameters_only<S: Scalar>(
    a: NetworkView<S>,
    b: NetworkView<S>,
    x: Seq<S>,
)
    requires
        same_parameters(a, b),
    ensures
        net_forward(a, x) == net_forward(b, x),
{
    assert forall|i: int| 0 <= i < a.len() implies #[trigger] net_forward(a, x)[i] == net_forward(
        b,
        x,
    )[i] by {
        same_layer_inputs(a, b, x, i as nat);
        let fed = input_of(a, x, i as nat);
        assert(a[i].len() == b[i].len());
        assert forall|j: int| 0 <= j < a[i].len() implies (#[trigger] a[i][j]).weights
            == b[i][j].weights && a[i][j].bias == b[i][j].bias by {}
        assert(layer_fire(a[i], fed) =~= layer_fire(b[i], fed));
    }
    assert(net_forward(a, x) =~= net_forward(b, x));
}

/// A forward pass changes no weight and no bias.
pub proof fn forward_keeps_parameters<S: Scalar>(net: NetworkView<S>, x: Seq<S>)
    ensures
        same_parameters(net_forward(net, x), net),
{
}

/// A forward pass is repeatable: on a network whose weights and biases
/// stay fixed, a second pass on the same input leaves the same network and
/// returns the same outputs as the first.
pub proof fn forward_is_repeatable<S: Scalar>(net: NetworkView<S>, x: Seq<S>)
    ensures
        net_forward(net_forward(net, x), x) == net_forward(net, x),
        outputs(net_forward(net_forward(net, x), x).last()) == outputs(net_forward(net, x).last()),
{
    forward_keeps_parameters(net, x);
    forward_reads_parameters_only(net_forward(net, x), net, x);
}

/// A forward pass returns one number per neuron of the last layer, none of
/// them below zero.
pub proof fn forward_outputs_non_negative<S: Scalar>(net: NetworkView<S>, x: Seq<S>)
    requires
        net.len() >= 1,
    ensures
        outputs(net_forward(net, x).last()).len() == net.last().len(),
        forall|j: int|
            0 <= j < net.last().len() ==> non_negative(#[trigger] outputs(net_forward(net, x).last())[j]),
{
    let seen = net_forward(net, x).last();
    assert forall|j: int| 0 <= j < net.last().len() implies non_negative(
        #[trigger] outputs(seen)[j],
    ) by {
        relu_non_negative(seen[j].input_sum.add_spec(seen[j].bias));
    }
}

/// After a forward pass the output that a neuron remembers is the
/// rectified sum of the weighted sum it remembers and its bias.
pub proof fn forward_memory_is_consistent<S: Scalar>(net: NetworkView<S>, x: Seq<S>)
    ensures
        forall|i: int, j: int|
            0 <= i < net.len() && 0 <= j < net[i].len() ==> {
                let neuron = #[trigger] net_forward(net, x)[i][j];
                neuron.output == relu_spec(neuron.input_sum.add_spec(neuron.bias))
            },
{
}

/// A forward pass keeps the layers fitting together.
pub proof fn forward_keeps_shape<S: Scalar>(net: NetworkView<S>, x: Seq<S>)
    requires
        well_formed(net),
    ensures
        well_formed(net_forward(net, x)),
{
}

/// A training step changes neither the shape of the network nor what its
/// neurons remember from the forward pass.
pub proof fn backward_keeps_shape_and_memory<S: Scalar>(net: NetworkView<S>, expected: Seq<S>)
    requires
        well_formed(net),
    ensures
        well_formed(net_backward(net, expected)),
        forall|i: int, j: int|
            0 <= i < net.len() && 0 <= j < net[i].len() ==> {
                &&& (#[trigger] net_backward(net, expected)[i][j]).output == net[i][j].output
                &&& net_backward(net, expected)[i][j].input_sum == net[i][j].input_sum
            },
{
}

} // verus!
