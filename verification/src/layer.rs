//! A layer: neurons that are all fed the same input.

use vstd::prelude::*;
use crate::scalar::{Scalar, in_unit_interval};
use crate::neuron::Neuron;
use crate::model::{LayerView, layer_fire, outputs, residuals, layer_adjust, passed_back, fire, adjust};

verus! {

pub struct Layer<S: Scalar> {
    neurons: Vec<Neuron<S>>,
}

impl<S: Scalar> View for Layer<S> {
    type V = LayerView<S>;

    closed spec fn view(&self) -> LayerView<S> {
        Seq::new(self.neurons@.len(), |j: int| self.neurons@[j]@)
    }
}

impl<S: Scalar> Layer<S> {
    /// The layer made of the given neurons, in their order.
    pub fn new(neurons: Vec<Neuron<S>>) -> (l: Self)
        ensures
            l@.len() == neurons@.len(),
            forall|j: int| 0 <= j < neurons@.len() ==> #[trigger] l@[j] == neurons@[j]@,
    {
        Layer { neurons }
    }

    /// A layer of `count` random neurons with `width` weights each.
    pub fn random(count: usize, width: usize) -> (l: Self)
        ensures
            l@.len() == count,
            forall|j: int|
                0 <= j < count ==> {
                    &&& (#[trigger] l@[j]).weights.len() == width
                    &&& in_unit_interval(l@[j].bias)
                    &&& l@[j].output == S::zero_spec()
                    &&& l@[j].input_sum == S::zero_spec()
                    &&& forall|k: int| 0 <= k < width ==> in_unit_interval(#[trigger] l@[j].weights[k])
                },
    {
        let mut neurons: Vec<Neuron<S>> = Vec::new();
        let mut j: usize = 0;
        while j < count
            invariant
                j <= count,
                neurons@.len() == j,
                forall|m: int|
                    0 <= m < j ==> {
                        &&& (#[trigger] neurons@[m])@.weights.len() == width
                        &&& in_unit_interval(neurons@[m]@.bias)
                        &&& neurons@[m]@.output == S::zero_spec()
                        &&& neurons@[m]@.input_sum == S::zero_spec()
                        &&& forall|k: int|
                            0 <= k < width ==> in_unit_interval(#[trigger] neurons@[m]@.weights[k])
                    },
            decreases count - j,
        {
            neurons.push(Neuron::random(width));
            j += 1;
        }
        Layer { neurons }
    }

    pub fn neurons(&self) -> (ns: &Vec<Neuron<S>>)
        ensures
            ns@.len() == self@.len(),
            forall|j: int| 0 <= j < ns@.len() ==> (#[trigger] ns@[j])@ == self@[j],
    {
        &self.neurons
    }

    /// Number of neurons, which is the number of outputs.
    pub fn len(&self) -> (n: usize)
        ensures
            n == self@.len(),
    {
        self.neurons.len()
    }

    /// Number of weights of the first neuron; zero for a layer without
    /// neurons.
    pub fn input_width(&self) -> (n: usize)
        ensures
            n == (if self@.len() == 0 {
                0
            } else {
                self@[0].weights.len()
            }),
    {
        if self.neurons.len() == 0 {
            0
        } else {
            self.neurons[0].weights().len()
        }
    }

    /// Whether every neuron has exactly `width` weights.
    pub fn has_width(&self, width: usize) -> (ok: bool)
        ensures
            ok == (forall|j: int| 0 <= j < self@.len() ==> (#[trigger] self@[j]).weights.len() == width),
    {
        let n = self.neurons.len();
        let mut j: usize = 0;
        while j < n
            invariant
                j <= n,
                n == self.neurons@.len(),
                forall|m: int| 0 <= m < j ==> (#[trigger] self@[m]).weights.len() == width,
            decreases n - j,
        {
            if self.neurons[j].weights().len() != width {
                assert(self@[j as int].weights.len() != width);
                return false;
            }
            j += 1;
        }
        true
    }

    /// The remembered outputs, in neuron order.
    pub fn outputs(&self) -> (out: Vec<S>)
        ensures
            out@ == outputs(self@),
    {
        let n = self.neurons.len();
        let mut out: Vec<S> = Vec::new();
        let mut j: usize = 0;
        while j < n
            invariant
                j <= n,
                n == self.neurons@.len(),
                out@.len() == j,
                forall|m: int| 0 <= m < j ==> #[trigger] out@[m] == self@[m].output,
            decreases n - j,
        {
            out.push(self.neurons[j].output());
            j += 1;
        }
        assert(out@ =~= outputs(self@));
        out
    }

    /// Expected value minus remembered output, neuron by neuron.
    pub fn residuals(&self, expected: &Vec<S>) -> (out: Vec<S>)
        requires
            expected@.len() == self@.len(),
        ensures
            out@ == residuals(self@, expected@),
    {
        let n = self.neurons.len();
        let mut out: Vec<S> = Vec::new();
        let mut j: usize = 0;
        while j < n
            invariant
                j <= n,
                n == self.neurons@.len(),
                n == expected@.len(),
                out@.len() == j,
                forall|m: int|
                    0 <= m < j ==> #[trigger] out@[m] == expected@[m].sub_spec(self@[m].output),
            decreases n - j,
        {
            out.push(expected[j].minus(self.neurons[j].output()));
            j += 1;
        }
        assert(out@ =~= residuals(self@, expected@));
        out
    }

    /// Evaluates every neuron on `inputs`, in order, and returns their
    /// outputs.
    pub fn fire(&mut self, inputs: &Vec<S>) -> (out: Vec<S>)
        requires
            forall|j: int|
                0 <= j < old(self)@.len() ==> (#[trigger] old(self)@[j]).weights.len() == inputs@.len(),
        ensures
            final(self)@ == layer_fire(old(self)@, inputs@),
            out@ == outputs(final(self)@),
    {
        let ghost before = self@;
        let n = self.neurons.len();
        let mut out: Vec<S> = Vec::new();
        let mut j: usize = 0;
        while j < n
            invariant
                j <= n,
                n == before.len(),
                self.neurons@.len() == n,
                out@.len() == j,
                forall|m: int|
                    0 <= m < n ==> (#[trigger] before[m]).weights.len() == inputs@.len(),
                forall|m: int| 0 <= m < j ==> (#[trigger] self.neurons@[m])@ == fire(before[m], inputs@),
                forall|m: int| j <= m < n ==> (#[trigger] self.neurons@[m])@ == before[m],
                forall|m: int| 0 <= m < j ==> #[trigger] out@[m] == fire(before[m], inputs@).output,
            decreases n - j,
        {
            assert(self.neurons@[j as int]@ == before[j as int]);
            let value = self.neurons[j].fire(inputs);
            out.push(value);
            j += 1;
        }
        assert(self@ =~= layer_fire(before, inputs@));
        assert(out@ =~= outputs(self@));
        out
    }

    /// Updates every neuron with its own error, in order, and returns what
    /// the layer passes back: one sum per weight position, `width` of them.
    pub fn adjust(&mut self, errors: &Vec<S>, width: usize) -> (passed: Vec<S>)
        requires
            errors@.len() == old(self)@.len(),
            forall|j: int| 0 <= j < old(self)@.len() ==> (#[trigger] old(self)@[j]).weights.len() == width,
        ensures
            final(self)@ == layer_adjust(old(self)@, errors@),
            passed@.len() == width,
            forall|k: int|
                0 <= k < width ==> #[trigger] passed@[k] == passed_back(
                    old(self)@,
                    errors@,
                    k,
                    old(self)@.len(),
                ),
    {
        let ghost before = self@;
        let n = self.neurons.len();
        let mut passed: Vec<S> = Vec::new();
        let mut k: usize = 0;
        while k < width
            invariant
                k <= width,
                passed@.len() == k,
                forall|m: int| 0 <= m < k ==> #[trigger] passed@[m] == S::zero_spec(),
            decreases width - k,
        {
            passed.push(S::zero());
            k += 1;
        }
        let mut j: usize = 0;
        while j < n
            invariant
                j <= n,
                n == before.len(),
                n == errors@.len(),
                self.neurons@.len() == n,
                passed@.len() == width,
                forall|m: int| 0 <= m < n ==> (#[trigger] before[m]).weights.len() == width,
                forall|m: int|
                    0 <= m < j ==> (#[trigger] self.neurons@[m])@ == adjust(before[m], errors@[m]),
                forall|m: int| j <= m < n ==> (#[trigger] self.neurons@[m])@ == before[m],
                forall|m: int|
                    0 <= m < width ==> #[trigger] passed@[m] == passed_back(before, errors@, m, j as nat),
            decreases n - j,
        {
            assert(self.neurons@[j as int]@ == before[j as int]);
            let error = errors[j];
            self.neurons[j].adjust(error, &mut passed);
            j += 1;
        }
        assert(self@ =~= layer_adjust(before, errors@));
        passed
    }
}

} // verus!
