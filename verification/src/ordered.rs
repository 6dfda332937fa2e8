//! Number types whose arithmetic respects their order, and what a training
//! step does to the outputs of a network over such numbers.

use vstd::prelude::*;
use crate::scalar::Scalar;
use crate::fixed::Fixed;
use crate::activation::{relu_spec, relu_derivative_spec, relu_non_negative};
use crate::model::{
    NeuronView, LayerView, NetworkView, well_formed, accepts_input, dot, fire, outputs, input_of,
    net_forward, local_gradient, adjust, passed_back, errors_of, net_backward,
};
use crate::laws::forward_is_repeatable;

verus! {

/// `a` is not above `b`.
pub open spec fn at_most<S: Scalar>(a: S, b: S) -> bool {
    !b.lt_spec(a)
}

/// A number type in which sums and products of non-negative numbers grow
/// with their operands.
pub trait OrderedScalar: Scalar {
    /// Whatever lies between two numbers in strict order is above the
    /// smaller or below the larger.
    proof fn lt_cotransitive(a: Self, b: Self, c: Self)
        requires
            a.lt_spec(c),
        ensures
            a.lt_spec(b) || b.lt_spec(c),
    ;

    /// One is not below zero.
    proof fn one_non_negative()
        ensures
            at_most(Self::zero_spec(), Self::one_spec()),
    ;

    /// Adding zero changes nothing.
    proof fn add_zero(a: Self)
        ensures
            a.add_spec(Self::zero_spec()) == a,
    ;

    /// Zero times zero is zero.
    proof fn zero_times_zero()
        ensures
            Self::zero_spec().mul_spec(Self::zero_spec()) == Self::zero_spec(),
    ;

    /// A sum grows with both of its operands.
    proof fn add_monotone(a: Self, a2: Self, b: Self, b2: Self)
        requires
            at_most(a, a2),
            at_most(b, b2),
        ensures
            at_most(a.add_spec(b), a2.add_spec(b2)),
    ;

    /// A product of non-negative numbers grows with both of its operands.
    proof fn mul_monotone(a: Self, a2: Self, b: Self, b2: Self)
        requires
            at_most(Self::zero_spec(), a),
            at_most(a, a2),
            at_most(Self::zero_spec(), b),
            at_most(b, b2),
        ensures
            at_most(a.mul_spec(b), a2.mul_spec(b2)),
    ;

    /// Taking away what is not above leaves nothing below zero.
    proof fn sub_non_negative(a: Self, b: Self)
        requires
            at_most(b, a),
        ensures
            at_most(Self::zero_spec(), a.sub_spec(b)),
    ;
}

impl OrderedScalar for Fixed {
    proof fn lt_cotransitive(a: Fixed, b: Fixed, c: Fixed) {
    }

    proof fn one_non_negative() {
    }

    proof fn add_zero(a: Fixed) {
    }

    proof fn zero_times_zero() {
    }

    proof fn add_monotone(a: Fixed, a2: Fixed, b: Fixed, b2: Fixed) {
    }

    proof fn mul_monotone(a: Fixed, a2: Fixed, b: Fixed, b2: Fixed) {
        assert(a.raw * b.raw <= a2.raw * b2.raw) by (nonlinear_arith)
            requires
                0 <= a.raw <= a2.raw,
                0 <= b.raw <= b2.raw,
        ;
    }

    proof fn sub_non_negative(a: Fixed, b: Fixed) {
    }
}

/// No entry is below zero.
pub open spec fn all_non_negative<S: Scalar>(x: Seq<S>) -> bool {
    forall|k: int| 0 <= k < x.len() ==> at_most(S::zero_spec(), #[trigger] x[k])
}

/// `x` and `y` are equally long and no entry of `x` is above the matching
/// entry of `y`.
pub open spec fn pointwise_at_most<S: Scalar>(x: Seq<S>, y: Seq<S>) -> bool {
    &&& x.len() == y.len()
    &&& forall|k: int| 0 <= k < x.len() ==> at_most(#[trigger] x[k], y[k])
}

/// No weight of the network is below zero.
pub open spec fn weights_non_negative<S: Scalar>(net: NetworkView<S>) -> bool {
    forall|i: int, j: int, k: int|
        0 <= i < net.len() && 0 <= j < net[i].len() && 0 <= k < net[i][j].weights.len() ==> at_most(
            S::zero_spec(),
            #[trigger] net[i][j].weights[k],
        )
}

/// `a` and `b` have the same shape, and no weight or bias of `a` is above
/// the matching one of `b`.
pub open spec fn parameters_at_most<S: Scalar>(a: NetworkView<S>, b: NetworkView<S>) -> bool {
    &&& a.len() == b.len()
    &&& forall|i: int| 0 <= i < a.len() ==> (#[trigger] a[i]).len() == b[i].len()
    &&& forall|i: int, j: int|
        0 <= i < a.len() && 0 <= j < a[i].len() ==> neuron_at_most(#[trigger] a[i][j], b[i][j])
}

/// Both neurons have equally many weights, and no weight or bias of `a` is
/// above the matching one of `b`.
pub open spec fn neuron_at_most<S: Scalar>(a: NeuronView<S>, b: NeuronView<S>) -> bool {
    &&& pointwise_at_most(a.weights, b.weights)
    &&& at_most(a.bias, b.bias)
}

proof fn at_most_reflexive<S: OrderedScalar>(a: S)
    ensures
        at_most(a, a),
{
    if a.lt_spec(a) {
        S::lt_asymmetric(a, a);
    }
}

proof fn at_most_transitive<S: OrderedScalar>(a: S, b: S, c: S)
    requires
        at_most(a, b),
        at_most(b, c),
    ensures
        at_most(a, c),
{
    if c.lt_spec(a) {
        S::lt_cotransitive(c, b, a);
    }
}

proof fn product_non_negative<S: OrderedScalar>(a: S, b: S)
    requires
        at_most(S::zero_spec(), a),
        at_most(S::zero_spec(), b),
    ensures
        at_most(S::zero_spec(), a.mul_spec(b)),
{
    at_most_reflexive(S::zero_spec());
    S::mul_monotone(S::zero_spec(), a, S::zero_spec(), b);
    S::zero_times_zero();
}

proof fn sum_non_negative<S: OrderedScalar>(a: S, b: S)
    requires
        at_most(S::zero_spec(), a),
        at_most(S::zero_spec(), b),
    ensures
        at_most(S::zero_spec(), a.add_spec(b)),
{
    S::add_monotone(S::zero_spec(), a, S::zero_spec(), b);
    S::add_zero(S::zero_spec());
}

proof fn sum_grows<S: OrderedScalar>(a: S, b: S)
    requires
        at_most(S::zero_spec(), b),
    ensures
        at_most(a, a.add_spec(b)),
{
    at_most_reflexive(a);
    S::add_monotone(a, a, S::zero_spec(), b);
    S::add_zero(a);
}

/// The rectifier keeps the order.
pub proof fn relu_monotone<S: OrderedScalar>(a: S, b: S)
    requires
        at_most(a, b),
    ensures
        at_most(relu_spec(a), relu_spec(b)),
{
    if S::zero_spec().lt_spec(a) {
        S::lt_cotransitive(S::zero_spec(), b, a);
    } else {
        relu_non_negative(b);
    }
}

/// A weighted sum of non-negative inputs under non-negative weights grows
/// with every weight and every input.
proof fn dot_monotone<S: OrderedScalar>(w: Seq<S>, w2: Seq<S>, x: Seq<S>, x2: Seq<S>, n: nat)
    requires
        n <= w.len(),
        n <= x.len(),
        all_non_negative(w),
        all_non_negative(x),
        pointwise_at_most(w, w2),
        pointwise_at_most(x, x2),
    ensures
        at_most(dot(w, x, n), dot(w2, x2, n)),
    decreases n,
{
    if n == 0 {
        at_most_reflexive(S::zero_spec());
    } else {
        let m = (n - 1) as nat;
        dot_monotone(w, w2, x, x2, m);
        S::mul_monotone(w[m as int], w2[m as int], x[m as int], x2[m as int]);
        S::add_monotone(
            dot(w, x, m),
            dot(w2, x2, m),
            w[m as int].mul_spec(x[m as int]),
            w2[m as int].mul_spec(x2[m as int]),
        );
    }
}

/// With larger parameters and larger inputs a neuron's output is not lower.
proof fn fire_monotone<S: OrderedScalar>(a: NeuronView<S>, b: NeuronView<S>, x: Seq<S>, x2: Seq<S>)
    requires
        neuron_at_most(a, b),
        all_non_negative(a.weights),
        all_non_negative(x),
        pointwise_at_most(x, x2),
        a.weights.len() == x.len(),
    ensures
        at_most(fire(a, x).output, fire(b, x2).output),
{
    let n = a.weights.len();
    dot_monotone(a.weights, b.weights, x, x2, n);
    S::add_monotone(dot(a.weights, x, n), dot(b.weights, x2, n), a.bias, b.bias);
    relu_monotone(dot(a.weights, x, n).add_spec(a.bias), dot(b.weights, x2, n).add_spec(b.bias));
}

/// With larger parameters every layer is fed inputs that are not lower.
proof fn inputs_monotone<S: OrderedScalar>(a: NetworkView<S>, b: NetworkView<S>, x: Seq<S>, i: nat)
    requires
        well_formed(a),
        accepts_input(a, x.len()),
        parameters_at_most(a, b),
        weights_non_negative(a),
        all_non_negative(x),
        i <= a.len(),
    ensures
        pointwise_at_most(input_of(a, x, i), input_of(b, x, i)),
        all_non_negative(input_of(a, x, i)),
        i > 0 ==> input_of(a, x, i).len() == a[i - 1].len(),
        i == 0 ==> input_of(a, x, i) == x,
    decreases i,
{
    if i == 0 {
        assert forall|k: int| 0 <= k < x.len() implies at_most(#[trigger] x[k], x[k]) by {
            at_most_reflexive(x[k]);
        }
    } else {
        let m = (i - 1) as int;
        inputs_monotone(a, b, x, m as nat);
        let fed = input_of(a, x, m as nat);
        let fed2 = input_of(b, x, m as nat);
        let out = input_of(a, x, i);
        let out2 = input_of(b, x, i);
        assert(a[m].len() == b[m].len());
        assert(out.len() == a[m].len());
        assert(out2.len() == b[m].len());
        assert forall|j: int| 0 <= j < out.len() implies at_most(#[trigger] out[j], out2[j])
            && at_most(S::zero_spec(), out[j]) by {
            let n = a[m][j];
            assert(neuron_at_most(n, b[m][j]));
            assert(n.weights.len() == fed.len());
            assert forall|k: int| 0 <= k < n.weights.len() implies at_most(
                S::zero_spec(),
                #[trigger] n.weights[k],
            ) by {
                assert(at_most(S::zero_spec(), a[m][j].weights[k]));
            }
            fire_monotone(n, b[m][j], fed, fed2);
            relu_non_negative(dot(n.weights, fed, n.weights.len()).add_spec(n.bias));
            assert(out[j] == fire(n, fed).output);
            assert(out2[j] == fire(b[m][j], fed2).output);
        }
    }
}

/// Non-negative errors passed back through non-negative weights are not
/// below zero.
proof fn passed_back_non_negative<S: OrderedScalar>(l: LayerView<S>, errors: Seq<S>, k: int, n: nat)
    requires
        n <= l.len(),
        n <= errors.len(),
        all_non_negative(errors),
        forall|j: int| 0 <= j < l.len() ==> at_most(S::zero_spec(), (#[trigger] l[j]).weights[k]),
    ensures
        at_most(S::zero_spec(), passed_back(l, errors, k, n)),
    decreases n,
{
    if n == 0 {
        at_most_reflexive(S::zero_spec());
    } else {
        let m = (n - 1) as nat;
        passed_back_non_negative(l, errors, k, m);
        assert(at_most(S::zero_spec(), l[m as int].weights[k]));
        product_non_negative(errors[m as int], l[m as int].weights[k]);
        sum_non_negative(
            passed_back(l, errors, k, m),
            errors[m as int].mul_spec(l[m as int].weights[k]),
        );
    }
}

/// Where no output is above what is expected of it and no weight is below
/// zero, no layer is reached by an error below zero.
proof fn errors_non_negative<S: OrderedScalar>(net: NetworkView<S>, expected: Seq<S>, i: int)
    requires
        well_formed(net),
        weights_non_negative(net),
        pointwise_at_most(outputs(net.last()), expected),
        0 <= i < net.len(),
    ensures
        all_non_negative(errors_of(net, expected, i)),
        errors_of(net, expected, i).len() == net[i].len(),
    decreases net.len() - i,
{
    if i >= net.len() - 1 {
        let l = net.last();
        let r = errors_of(net, expected, i);
        assert forall|j: int| 0 <= j < r.len() implies at_most(S::zero_spec(), #[trigger] r[j]) by {
            assert(at_most(outputs(l)[j], expected[j]));
            S::sub_non_negative(expected[j], l[j].output);
        }
    } else {
        errors_non_negative(net, expected, i + 1);
        let later = errors_of(net, expected, i + 1);
        let l = net[i + 1];
        let r = errors_of(net, expected, i);
        assert forall|k: int| 0 <= k < r.len() implies at_most(S::zero_spec(), #[trigger] r[k]) by {
            assert forall|j: int| 0 <= j < l.len() implies at_most(
                S::zero_spec(),
                (#[trigger] l[j]).weights[k],
            ) by {
                assert(net[i + 1][j].weights.len() == net[i].len());
                assert(at_most(S::zero_spec(), net[i + 1][j].weights[k]));
            }
            passed_back_non_negative(l, later, k, l.len());
        }
    }
}

/// An update with a non-negative error lowers no weight and not the bias
/// of a neuron whose remembered output is not below zero.
proof fn adjust_grows<S: OrderedScalar>(n: NeuronView<S>, error: S)
    requires
        at_most(S::zero_spec(), error),
        at_most(S::zero_spec(), n.output),
    ensures
        neuron_at_most(n, adjust(n, error)),
{
    S::one_non_negative();
    at_most_reflexive(S::zero_spec());
    product_non_negative(error, relu_derivative_spec(n.input_sum));
    let g = local_gradient(n, error);
    product_non_negative(n.output, g);
    sum_grows(n.bias, g);
    assert forall|k: int| 0 <= k < n.weights.len() implies at_most(
        #[trigger] n.weights[k],
        adjust(n, error).weights[k],
    ) by {
        sum_grows(n.weights[k], n.output.mul_spec(g));
    }
}

/// A training step towards targets that no output exceeds does not lower
/// any output: where no weight and no input is below zero, a forward pass
/// after the step returns, neuron by neuron, at least what the forward pass
/// before the step returned.
pub proof fn training_step_does_not_lower_outputs<S: OrderedScalar>(
    net: NetworkView<S>,
    x: Seq<S>,
    expected: Seq<S>,
)
    requires
        well_formed(net),
        accepts_input(net, x.len()),
        weights_non_negative(net),
        all_non_negative(x),
        pointwise_at_most(outputs(net_forward(net, x).last()), expected),
    ensures
        pointwise_at_most(
            outputs(net_forward(net, x).last()),
            outputs(net_forward(net_backward(net_forward(net, x), expected), x).last()),
        ),
{
    let seen = net_forward(net, x);
    let trained = net_backward(seen, expected);
    let last = (net.len() - 1) as int;
    forward_is_repeatable(net, x);
    assert(well_formed(seen));
    assert(accepts_input(seen, x.len()));
    assert forall|i: int, j: int, k: int|
        0 <= i < seen.len() && 0 <= j < seen[i].len() && 0 <= k < seen[i][j].weights.len() implies at_most(
        S::zero_spec(),
        #[trigger] seen[i][j].weights[k],
    ) by {
        assert(seen[i][j].weights == net[i][j].weights);
        assert(at_most(S::zero_spec(), net[i][j].weights[k]));
    }
    assert forall|i: int, j: int| 0 <= i < seen.len() && 0 <= j < seen[i].len() implies neuron_at_most(
        #[trigger] seen[i][j],
        trained[i][j],
    ) by {
        errors_non_negative(seen, expected, i);
        let errors = errors_of(seen, expected, i);
        assert(at_most(S::zero_spec(), errors[j]));
        relu_non_negative(seen[i][j].input_sum.add_spec(seen[i][j].bias));
        adjust_grows(seen[i][j], errors[j]);
        assert(trained[i][j] == adjust(seen[i][j], errors[j]));
    }
    assert(parameters_at_most(seen, trained));
    inputs_monotone(seen, trained, x, seen.len());
    assert(outputs(net_forward(seen, x).last()) == input_of(seen, x, seen.len()));
    assert(outputs(net_forward(trained, x).last()) == input_of(trained, x, trained.len()));
}

} // verus!
