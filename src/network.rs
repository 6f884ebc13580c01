use vstd::prelude::*;
use vstd::std_specs::cmp::PartialOrdSpec;
use vstd::std_specs::convert::FromSpec;
use vstd::std_specs::ops::{AddSpec, MulSpec};

use core::cmp::Ordering;
use core::ops::{Add, Mul};
use rand::distributions::uniform::{SampleUniform, UniformFloat, UniformSampler};

use crate::random::draw_between;

verus! {

/// Addition and multiplication on `T` are defined for every pair of values,
/// as they are on floating-point numbers.
pub open spec fn total_arithmetic<T: Add<Output = T> + Mul<Output = T>>() -> bool {
    &&& forall|x: T, y: T| #[trigger] x.add_req(y)
    &&& forall|x: T, y: T| #[trigger] x.mul_req(y)
}

/// Addition, multiplication, comparison and the conversion from `i8` on `T`
/// follow their specifications, as they do on the integer types; Verus
/// assumes no such thing of floating-point numbers.
pub open spec fn modelled_arithmetic<T: Add<Output = T> + Mul<Output = T> + PartialOrd + From<i8>>() -> bool {
    &&& T::obeys_add_spec()
    &&& T::obeys_mul_spec()
    &&& T::obeys_partial_cmp_spec()
    &&& <T as FromSpec<i8>>::obeys_from_spec()
}

/// Zero, as `T::from(0i8)` gives it.
pub open spec fn zero_of<T: From<i8>>() -> T {
    T::from_spec(0i8)
}

/// `inputs[0] * weights[0] + ... + inputs[n - 1] * weights[n - 1]`, added
/// from the left onto zero.
pub open spec fn weighted_sum<T: Add<Output = T> + Mul<Output = T> + From<i8>>(
    inputs: Seq<T>,
    weights: Seq<T>,
    n: int,
) -> T
    decreases n,
{
    if n <= 0 {
        zero_of::<T>()
    } else {
        weighted_sum(inputs, weights, n - 1).add_spec(inputs[n - 1].mul_spec(weights[n - 1]))
    }
}

/// `v` where it is above zero, else zero.
pub open spec fn relu<T: PartialOrd + From<i8>>(v: T) -> T {
    if v.partial_cmp_spec(&zero_of::<T>()) == Some(Ordering::Greater) {
        v
    } else {
        zero_of::<T>()
    }
}

/// What neuron `n` yields for `inputs`: `max(0, bias + sum of inputs[i] * weights[i])`.
pub open spec fn neuron_output<T: Add<Output = T> + Mul<Output = T> + PartialOrd + From<i8>>(
    n: (T, Seq<T>),
    inputs: Seq<T>,
) -> T {
    relu(n.0.add_spec(weighted_sum(inputs, n.1, inputs.len() as int)))
}

/// What a layer yields for `inputs`: each neuron's output, in order.
pub open spec fn layer_output<T: Add<Output = T> + Mul<Output = T> + PartialOrd + From<i8>>(
    l: Seq<(T, Seq<T>)>,
    inputs: Seq<T>,
) -> Seq<T> {
    Seq::new(l.len(), |j: int| neuron_output(l[j], inputs))
}

/// What a network yields for `inputs`: the layers applied in order.
pub open spec fn network_output<T: Add<Output = T> + Mul<Output = T> + PartialOrd + From<i8>>(
    ls: Seq<Seq<(T, Seq<T>)>>,
    inputs: Seq<T>,
) -> Seq<T>
    decreases ls.len(),
{
    if ls.len() == 0 {
        inputs
    } else {
        layer_output(ls.last(), network_output(ls.drop_last(), inputs))
    }
}

/// Each multiplication and addition that neuron `n` performs on `inputs`,
/// on the values it meets there, is permitted.
pub open spec fn neuron_steps_ok<T: Add<Output = T> + Mul<Output = T> + From<i8>>(
    n: (T, Seq<T>),
    inputs: Seq<T>,
) -> bool {
    &&& forall|i: int| 0 <= i < inputs.len() ==> #[trigger] inputs[i].mul_req(n.1[i])
    &&& forall|i: int|
        0 <= i < inputs.len() ==> (#[trigger] weighted_sum(inputs, n.1, i)).add_req(inputs[i].mul_spec(n.1[i]))
    &&& n.0.add_req(weighted_sum(inputs, n.1, inputs.len() as int))
}

/// The arithmetic that neuron `n` performs on `inputs` is permitted: all of it
/// where `T`'s arithmetic is total (floating point), or, where it follows its
/// specification (the integers), each step on the values it meets.
pub open spec fn neuron_arith_ok<T: Add<Output = T> + Mul<Output = T> + PartialOrd + From<i8>>(
    n: (T, Seq<T>),
    inputs: Seq<T>,
) -> bool {
    total_arithmetic::<T>() || (modelled_arithmetic::<T>() && neuron_steps_ok(n, inputs))
}

/// The arithmetic of every neuron of the network, on what reaches its layer
/// from `inputs`, is permitted.
pub open spec fn network_arith_ok<T: Add<Output = T> + Mul<Output = T> + PartialOrd + From<i8>>(
    ls: Seq<Seq<(T, Seq<T>)>>,
    inputs: Seq<T>,
) -> bool {
    forall|i: int, j: int|
        0 <= i < ls.len() && 0 <= j < ls[i].len() ==> neuron_arith_ok(
            #[trigger] ls[i][j],
            network_output(ls.subrange(0, i), inputs),
        )
}

/// `lo <= x <= hi`, by `T`'s comparison, with the bounds converted from `i8`.
pub open spec fn within<T: PartialOrd + From<i8>>(x: T, lo: i8, hi: i8) -> bool {
    &&& T::from_spec(lo).partial_cmp_spec(&x) matches Some(Ordering::Less | Ordering::Equal)
    &&& x.partial_cmp_spec(&T::from_spec(hi)) matches Some(Ordering::Less | Ordering::Equal)
}

/// The neuron's bias and weights all lie in [-1, 1].
pub open spec fn unit_neuron<T: PartialOrd + From<i8>>(n: (T, Seq<T>)) -> bool {
    &&& within(n.0, -1i8, 1i8)
    &&& forall|k: int| 0 <= k < n.1.len() ==> within(#[trigger] n.1[k], -1i8, 1i8)
}

/// The neuron count of one layer of a network.
#[derive(Clone, Copy, Debug)]
pub struct LayerTopology {
    pub neurons: usize,
}

/// A neuron: its bias and one weight per input, as `(bias, weights)`.
#[derive(Debug)]
pub struct Neuron<T> {
    pub bias: T,
    pub weights: Vec<T>,
}

impl<T> View for Neuron<T> {
    type V = (T, Seq<T>);

    open spec fn view(&self) -> (T, Seq<T>) {
        (self.bias, self.weights@)
    }
}

/// A layer of neurons that all read the same inputs.
#[derive(Debug)]
pub struct Layer<T> {
    neurons: Vec<Neuron<T>>,
}

impl<T> View for Layer<T> {
    type V = Seq<(T, Seq<T>)>;

    closed spec fn view(&self) -> Seq<(T, Seq<T>)> {
        self.neurons@.map_values(|n: Neuron<T>| n@)
    }
}

/// A feed-forward network: layers applied one after the other.
#[derive(Debug)]
pub struct Network<T> {
    layers: Vec<Layer<T>>,
}

impl<T> View for Network<T> {
    type V = Seq<Seq<(T, Seq<T>)>>;

    closed spec fn view(&self) -> Seq<Seq<(T, Seq<T>)>> {
        self.layers@.map_values(|l: Layer<T>| l@)
    }
}

/// A neuron's part of the flat weight sequence: its bias, then its weights.
pub open spec fn neuron_code<T>(n: (T, Seq<T>)) -> Seq<T> {
    seq![n.0] + n.1
}

/// A layer's part of the flat weight sequence: its neurons' parts in order.
pub open spec fn layer_code<T>(l: Seq<(T, Seq<T>)>) -> Seq<T>
    decreases l.len(),
{
    if l.len() == 0 {
        Seq::empty()
    } else {
        layer_code(l.drop_last()) + neuron_code(l.last())
    }
}

/// The flat weight sequence of a network: its layers' parts in order.
pub open spec fn network_code<T>(ls: Seq<Seq<(T, Seq<T>)>>) -> Seq<T>
    decreases ls.len(),
{
    if ls.len() == 0 {
        Seq::empty()
    } else {
        network_code(ls.drop_last()) + layer_code(ls.last())
    }
}

/// A layer of `outputs` neurons, each with `inputs` weights.
pub open spec fn layer_fits<T>(l: Seq<(T, Seq<T>)>, inputs: nat, outputs: nat) -> bool {
    &&& l.len() == outputs
    &&& forall|j: int| 0 <= j < l.len() ==> (#[trigger] l[j]).1.len() == inputs
}

/// Layer `i` reads the neurons of entry `i` of `t` and has those of entry `i + 1`.
pub open spec fn chain<T>(ls: Seq<Seq<(T, Seq<T>)>>, t: Seq<LayerTopology>) -> bool {
    &&& ls.len() + 1 == t.len()
    &&& forall|i: int|
        0 <= i < ls.len() ==> layer_fits(
            #[trigger] ls[i],
            t[i].neurons as nat,
            t[i + 1].neurons as nat,
        )
}

/// The network has the shape that the topology `t` describes.
pub open spec fn fits<T>(ls: Seq<Seq<(T, Seq<T>)>>, t: Seq<LayerTopology>) -> bool {
    t.len() >= 2 && chain(ls, t)
}

/// How many numbers the flat weight sequence of a network of topology `t` holds.
pub open spec fn weight_count(t: Seq<LayerTopology>) -> nat
    decreases t.len(),
{
    if t.len() < 2 {
        0
    } else {
        weight_count(t.drop_last()) + (t.last().neurons as nat) * (t[t.len() - 2].neurons as nat + 1)
    }
}

/// Each layer reads as many values as the one before it yields; the first reads `n`.
pub open spec fn accepts<T>(ls: Seq<Seq<(T, Seq<T>)>>, n: nat) -> bool {
    forall|i: int, j: int|
        0 <= i < ls.len() && 0 <= j < ls[i].len() ==> (#[trigger] ls[i][j]).1.len() == if i == 0 {
            n
        } else {
            ls[i - 1].len()
        }
}

/// How many values come out of the network for `n` inputs.
pub open spec fn output_len<T>(ls: Seq<Seq<(T, Seq<T>)>>, n: nat) -> nat {
    if ls.len() == 0 {
        n
    } else {
        ls.last().len()
    }
}

proof fn lemma_layer_code_len<T>(l: Seq<(T, Seq<T>)>, inputs: nat, outputs: nat)
    requires
        layer_fits(l, inputs, outputs),
    ensures
        layer_code(l).len() == outputs * (inputs + 1),
    decreases l.len(),
{
    if l.len() > 0 {
        assert(layer_fits(l.drop_last(), inputs, (outputs - 1) as nat));
        lemma_layer_code_len(l.drop_last(), inputs, (outputs - 1) as nat);
        assert(l.last() == l[l.len() - 1]);
        assert(l[l.len() - 1].1.len() == inputs);
        assert(neuron_code(l.last()).len() == inputs + 1);
        assert(layer_code(l) == layer_code(l.drop_last()) + neuron_code(l.last()));
        let o1 = (outputs - 1) as nat;
        assert(outputs * (inputs + 1) == o1 * (inputs + 1) + inputs + 1) by (nonlinear_arith)
            requires
                outputs >= 1,
                o1 == outputs - 1,
        ;
    } else {
        assert(outputs * (inputs + 1) == 0) by (nonlinear_arith)
            requires
                outputs == 0,
        ;
    }
}

proof fn lemma_chain_drop_last<T>(ls: Seq<Seq<(T, Seq<T>)>>, t: Seq<LayerTopology>)
    requires
        chain(ls, t),
        ls.len() > 0,
    ensures
        chain(ls.drop_last(), t.drop_last()),
{
    assert forall|i: int| 0 <= i < ls.drop_last().len() implies layer_fits(
        #[trigger] ls.drop_last()[i],
        t.drop_last()[i].neurons as nat,
        t.drop_last()[i + 1].neurons as nat,
    ) by {
        assert(ls.drop_last()[i] == ls[i]);
    }
}

proof fn lemma_network_code_len<T>(ls: Seq<Seq<(T, Seq<T>)>>, t: Seq<LayerTopology>)
    requires
        chain(ls, t),
    ensures
        network_code(ls).len() == weight_count(t),
    decreases ls.len(),
{
    if ls.len() > 0 {
        let k = ls.len() - 1;
        lemma_chain_drop_last(ls, t);
        lemma_network_code_len(ls.drop_last(), t.drop_last());
        assert(layer_fits(ls[k], t[k].neurons as nat, t[k + 1].neurons as nat));
        lemma_layer_code_len(ls.last(), t[k].neurons as nat, t[k + 1].neurons as nat);
    }
}

proof fn lemma_layer_code_injective<T>(l: Seq<(T, Seq<T>)>, m: Seq<(T, Seq<T>)>, inputs: nat, outputs: nat)
    requires
        layer_fits(l, inputs, outputs),
        layer_fits(m, inputs, outputs),
        layer_code(l) == layer_code(m),
    ensures
        l == m,
    decreases l.len(),
{
    if l.len() > 0 {
        let o1 = (outputs - 1) as nat;
        assert(layer_fits(l.drop_last(), inputs, o1));
        assert(layer_fits(m.drop_last(), inputs, o1));
        lemma_layer_code_len(l.drop_last(), inputs, o1);
        lemma_layer_code_len(m.drop_last(), inputs, o1);
        let pl = layer_code(l.drop_last());
        let pm = layer_code(m.drop_last());
        let nl = neuron_code(l.last());
        let nm = neuron_code(m.last());
        assert(pl + nl == pm + nm);
        assert(pl =~= (pl + nl).subrange(0, pl.len() as int));
        assert(pm =~= (pm + nm).subrange(0, pm.len() as int));
        assert(nl =~= (pl + nl).subrange(pl.len() as int, (pl + nl).len() as int));
        assert(nm =~= (pm + nm).subrange(pm.len() as int, (pm + nm).len() as int));
        lemma_layer_code_injective(l.drop_last(), m.drop_last(), inputs, o1);
        assert(l.last().0 == nl[0]);
        assert(m.last().0 == nm[0]);
        assert(l.last().1 =~= nl.subrange(1, nl.len() as int));
        assert(m.last().1 =~= nm.subrange(1, nm.len() as int));
        assert(l =~= l.drop_last().push(l.last()));
        assert(m =~= m.drop_last().push(m.last()));
    }
}

proof fn lemma_network_code_injective<T>(
    ls: Seq<Seq<(T, Seq<T>)>>,
    ms: Seq<Seq<(T, Seq<T>)>>,
    t: Seq<LayerTopology>,
)
    requires
        chain(ls, t),
        chain(ms, t),
        network_code(ls) == network_code(ms),
    ensures
        ls == ms,
    decreases ls.len(),
{
    if ls.len() > 0 {
        let k = ls.len() - 1;
        let t1 = t.drop_last();
        lemma_chain_drop_last(ls, t);
        lemma_chain_drop_last(ms, t);
        lemma_network_code_len(ls.drop_last(), t1);
        lemma_network_code_len(ms.drop_last(), t1);
        let pl = network_code(ls.drop_last());
        let pm = network_code(ms.drop_last());
        let ll = layer_code(ls.last());
        let lm = layer_code(ms.last());
        assert(pl + ll == pm + lm);
        assert(pl =~= (pl + ll).subrange(0, pl.len() as int));
        assert(pm =~= (pm + lm).subrange(0, pm.len() as int));
        assert(ll =~= (pl + ll).subrange(pl.len() as int, (pl + ll).len() as int));
        assert(lm =~= (pm + lm).subrange(pm.len() as int, (pm + lm).len() as int));
        lemma_network_code_injective(ls.drop_last(), ms.drop_last(), t1);
        assert(layer_fits(ls[k], t[k].neurons as nat, t[k + 1].neurons as nat));
        assert(layer_fits(ms[k], t[k].neurons as nat, t[k + 1].neurons as nat));
        lemma_layer_code_injective(ls.last(), ms.last(), t[k].neurons as nat, t[k + 1].neurons as nat);
        assert(ls =~= ls.drop_last().push(ls.last()));
        assert(ms =~= ms.drop_last().push(ms.last()));
    }
}

/// Decoding inverts encoding: along one topology, the network that
/// `Network::from_weights` builds from the weights of a network `n` of that
/// topology is `n` itself, and so it propagates every input as `n` does. Here
/// `m` is any network of topology `t` whose flat weight sequence is that of
/// `n`, as the contract of `from_weights` describes its result.
pub proof fn lemma_weights_round_trip<T: Add<Output = T> + Mul<Output = T> + PartialOrd + From<i8>>(
    t: Seq<LayerTopology>,
    n: Seq<Seq<(T, Seq<T>)>>,
    m: Seq<Seq<(T, Seq<T>)>>,
)
    requires
        fits(n, t),
        fits(m, t),
        network_code(m) == network_code(n),
    ensures
        m == n,
        forall|inputs: Seq<T>| #[trigger] network_output(m, inputs) == network_output(n, inputs),
{
    lemma_network_code_injective(m, n, t);
}

/// A network of topology `t` has `weight_count(t)` weights, reads as many
/// inputs as the first entry of `t` says, and yields as many outputs as the
/// last one says.
pub proof fn lemma_fits_shape<T>(ls: Seq<Seq<(T, Seq<T>)>>, t: Seq<LayerTopology>)
    requires
        fits(ls, t),
    ensures
        network_code(ls).len() == weight_count(t),
        accepts(ls, t[0].neurons as nat),
        output_len(ls, t[0].neurons as nat) == t.last().neurons,
{
    lemma_network_code_len(ls, t);
    assert forall|i: int, j: int| 0 <= i < ls.len() && 0 <= j < ls[i].len() implies (
    #[trigger] ls[i][j]).1.len() == if i == 0 {
        t[0].neurons as nat
    } else {
        ls[i - 1].len()
    } by {
        assert(layer_fits(ls[i], t[i].neurons as nat, t[i + 1].neurons as nat));
        if i > 0 {
            assert(layer_fits(ls[i - 1], t[i - 1].neurons as nat, t[i].neurons as nat));
        }
    }
    let k = ls.len() - 1;
    assert(layer_fits(ls[k], t[k].neurons as nat, t[k + 1].neurons as nat));
}

proof fn lemma_weight_count_prefix(t: Seq<LayerTopology>, k: int)
    requires
        0 <= k <= t.len(),
    ensures
        weight_count(t.subrange(0, k)) <= weight_count(t),
    decreases t.len(),
{
    if k < t.len() {
        lemma_weight_count_prefix(t.drop_last(), k);
        assert(t.drop_last().subrange(0, k) =~= t.subrange(0, k));
    } else {
        assert(t.subrange(0, k) =~= t);
    }
}

impl<T: Copy + PartialOrd + From<i8> + Add<Output = T> + Mul<Output = T>> Neuron<T> {
    /// The rectified output `max(0, bias + sum of inputs[i] * weights[i])`,
    /// summed from the first input to the last.
    pub fn propagate(&self, inputs: &[T]) -> (r: T)
        requires
            inputs@.len() == self.weights@.len(),
            neuron_arith_ok(self@, inputs@),
        ensures
            modelled_arithmetic::<T>() ==> r == neuron_output(self@, inputs@),
    {
        let zero = T::from(0i8);
        let mut output = zero;
        let mut i: usize = 0;
        while i < inputs.len()
            invariant
                i <= inputs@.len(),
                inputs@.len() == self.weights@.len(),
                neuron_arith_ok(self@, inputs@),
                modelled_arithmetic::<T>() ==> zero == zero_of::<T>(),
                modelled_arithmetic::<T>() ==> output == weighted_sum(inputs@, self.weights@, i as int),
            decreases inputs@.len() - i,
        {
            proof {
                if !total_arithmetic::<T>() {
                    assert(inputs@[i as int].mul_req(self@.1[i as int]));
                    assert(weighted_sum(inputs@, self@.1, i as int).add_req(
                        inputs@[i as int].mul_spec(self@.1[i as int]),
                    ));
                }
            }
            output = output + inputs[i] * self.weights[i];
            i += 1;
        }
        let sum = self.bias + output;
        if sum > zero {
            sum
        } else {
            zero
        }
    }
}

impl<T: Copy + PartialOrd + From<i8> + SampleUniform> Neuron<T> where UniformFloat<T>: UniformSampler {
    /// A neuron of `input_size` weights; the bias, then each weight, drawn
    /// uniformly from -1 to 1.
    pub fn random<R: rand::RngCore + ?Sized>(rng: &mut R, input_size: usize) -> (r: Self)
        ensures
            r.weights@.len() == input_size,
            unit_neuron(r@),
    {
        let bias: T = draw_between(rng, -1i8, 1i8);
        let mut weights: Vec<T> = Vec::new();
        let mut i: usize = 0;
        while i < input_size
            invariant
                i <= input_size,
                weights@.len() == i,
                forall|k: int| 0 <= k < i ==> within(#[trigger] weights@[k], -1i8, 1i8),
            decreases input_size - i,
        {
            let w: T = draw_between(rng, -1i8, 1i8);
            weights.push(w);
            i += 1;
        }
        Neuron { bias, weights }
    }
}

impl<T: Copy> Neuron<T> {
    /// The neuron of `input_size` weights whose part of a flat weight sequence
    /// starts at `start` of `weights`: its bias, then its weights.
    pub fn from_weights(input_size: usize, weights: &[T], start: usize) -> (r: Self)
        requires
            start + input_size + 1 <= weights@.len(),
        ensures
            r.weights@.len() == input_size,
            neuron_code(r@) == weights@.subrange(start as int, start + input_size + 1),
    {
        let bias = weights[start];
        let len = weights.len();
        let mut ws: Vec<T> = Vec::new();
        let mut i: usize = 0;
        while i < input_size
            invariant
                i <= input_size,
                len == weights@.len(),
                start + input_size + 1 <= weights@.len(),
                ws@ == weights@.subrange(start + 1, start + 1 + i),
            decreases input_size - i,
        {
            ws.push(weights[start + 1 + i]);
            i += 1;
            proof {
                assert(ws@ =~= weights@.subrange(start + 1, start + 1 + i));
            }
        }
        let r = Neuron { bias, weights: ws };
        proof {
            assert(neuron_code(r@) =~= weights@.subrange(start as int, start + input_size + 1));
        }
        r
    }
}

impl<T: Copy + PartialOrd + From<i8> + Add<Output = T> + Mul<Output = T>> Layer<T> {
    /// The outputs of the layer's neurons, in order.
    pub fn propagate(&self, inputs: Vec<T>) -> (r: Vec<T>)
        requires
            forall|j: int| 0 <= j < self@.len() ==> (#[trigger] self@[j]).1.len() == inputs@.len(),
            forall|j: int| 0 <= j < self@.len() ==> neuron_arith_ok(#[trigger] self@[j], inputs@),
        ensures
            r@.len() == self@.len(),
            modelled_arithmetic::<T>() ==> r@ == layer_output(self@, inputs@),
    {
        let mut outputs: Vec<T> = Vec::new();
        let mut j: usize = 0;
        while j < self.neurons.len()
            invariant
                j <= self.neurons@.len(),
                outputs@.len() == j,
                modelled_arithmetic::<T>() ==> outputs@ == layer_output(self@, inputs@).subrange(0, j as int),
                forall|k: int| 0 <= k < self@.len() ==> (#[trigger] self@[k]).1.len() == inputs@.len(),
                forall|k: int| 0 <= k < self@.len() ==> neuron_arith_ok(#[trigger] self@[k], inputs@),
            decreases self.neurons@.len() - j,
        {
            proof {
                assert(self@[j as int] == self.neurons@[j as int]@);
            }
            let output = self.neurons[j].propagate(inputs.as_slice());
            outputs.push(output);
            j += 1;
            proof {
                if modelled_arithmetic::<T>() {
                    assert(outputs@ =~= layer_output(self@, inputs@).subrange(0, j as int));
                }
            }
        }
        proof {
            if modelled_arithmetic::<T>() {
                assert(outputs@ =~= layer_output(self@, inputs@));
            }
        }
        outputs
    }
}

impl<T: Copy + PartialOrd + From<i8> + SampleUniform> Layer<T> where UniformFloat<T>: UniformSampler {
    /// A layer of `output_size` random neurons of `input_size` weights each.
    pub fn random<R: rand::RngCore + ?Sized>(rng: &mut R, input_size: usize, output_size: usize) -> (r: Self)
        ensures
            layer_fits(r@, input_size as nat, output_size as nat),
            forall|j: int| 0 <= j < r@.len() ==> unit_neuron(#[trigger] r@[j]),
    {
        let mut neurons: Vec<Neuron<T>> = Vec::new();
        let mut j: usize = 0;
        while j < output_size
            invariant
                j <= output_size,
                neurons@.len() == j,
                forall|k: int| 0 <= k < j ==> (#[trigger] neurons@[k]).weights@.len() == input_size,
                forall|k: int| 0 <= k < j ==> unit_neuron((#[trigger] neurons@[k])@),
            decreases output_size - j,
        {
            let n = Neuron::random(rng, input_size);
            neurons.push(n);
            j += 1;
        }
        let r = Layer { neurons };
        proof {
            assert forall|k: int| 0 <= k < r@.len() implies (#[trigger] r@[k]).1.len() == input_size by {
                assert(r@[k] == r.neurons@[k]@);
            }
            assert forall|k: int| 0 <= k < r@.len() implies unit_neuron(#[trigger] r@[k]) by {
                assert(r@[k] == r.neurons@[k]@);
            }
        }
        r
    }
}

impl<T: Copy> Layer<T> {
    /// The layer of `output_size` neurons of `input_size` weights each whose
    /// part of a flat weight sequence starts at `start` of `weights`; with the
    /// position just past that part.
    pub fn from_weights(input_size: usize, output_size: usize, weights: &[T], start: usize) -> (r: (
        Self,
        usize,
    ))
        requires
            start + output_size * (input_size + 1) <= weights@.len(),
        ensures
            r.1 == start + output_size * (input_size + 1),
            layer_fits(r.0@, input_size as nat, output_size as nat),
            layer_code(r.0@) == weights@.subrange(start as int, r.1 as int),
    {
        let len = weights.len();
        let mut neurons: Vec<Neuron<T>> = Vec::new();
        let mut pos: usize = start;
        let mut j: usize = 0;
        let ghost inputs = input_size as int;
        while j < output_size
            invariant
                j <= output_size,
                len == weights@.len(),
                start + output_size * (inputs + 1) <= weights@.len(),
                inputs == input_size,
                pos == start + j * (inputs + 1),
                neurons@.len() == j,
                forall|k: int| 0 <= k < j ==> (#[trigger] neurons@[k]).weights@.len() == input_size,
                layer_code(neurons@.map_values(|n: Neuron<T>| n@)) == weights@.subrange(start as int, pos as int),
            decreases output_size - j,
        {
            proof {
                assert((j + 1) * (inputs + 1) <= output_size * (inputs + 1)) by (nonlinear_arith)
                    requires
                        j + 1 <= output_size,
                        inputs >= 0,
                ;
                assert((j + 1) * (inputs + 1) == j * (inputs + 1) + inputs + 1) by (nonlinear_arith);
            }
            let n = Neuron::from_weights(input_size, weights, pos);
            let ghost before = neurons@.map_values(|n: Neuron<T>| n@);
            neurons.push(n);
            proof {
                let after = neurons@.map_values(|n: Neuron<T>| n@);
                assert(after.drop_last() =~= before);
                assert(after.last() == n@);
                assert(weights@.subrange(start as int, pos + inputs + 1) =~= weights@.subrange(
                    start as int,
                    pos as int,
                ) + weights@.subrange(pos as int, pos + inputs + 1));
            }
            pos = pos + 1 + input_size;
            j += 1;
        }
        let r = Layer { neurons };
        proof {
            assert forall|k: int| 0 <= k < r@.len() implies (#[trigger] r@[k]).1.len() == input_size by {
                assert(r@[k] == r.neurons@[k]@);
            }
        }
        (r, pos)
    }
}

/// How many numbers the flat weight sequence of a network of the given
/// topology holds; none when that number does not fit in `usize`.
pub fn count_weights(layers: &[LayerTopology]) -> (r: Option<usize>)
    ensures
        r matches Some(n) ==> n == weight_count(layers@),
        r is None ==> weight_count(layers@) > usize::MAX,
{
    if layers.len() < 2 {
        return Some(0);
    }
    let mut total: usize = 0;
    let mut i: usize = 1;
    while i < layers.len()
        invariant
            1 <= i <= layers@.len(),
            total == weight_count(layers@.subrange(0, i as int)),
        decreases layers@.len() - i,
    {
        let ghost t2 = layers@.subrange(0, i + 1);
        proof {
            assert(t2.drop_last() =~= layers@.subrange(0, i as int));
            assert(t2.last() == layers@[i as int]);
            assert(t2[t2.len() - 2] == layers@[i - 1]);
            lemma_weight_count_prefix(layers@, i + 1);
        }
        let per_neuron = match layers[i - 1].neurons.checked_add(1) {
            Some(v) => v,
            None => {
                proof {
                    assert(layers@[i as int].neurons as nat * (layers@[i - 1].neurons as nat + 1)
                        >= layers@[i as int].neurons as nat * (usize::MAX as nat + 1)) by (nonlinear_arith)
                        requires layers@[i - 1].neurons as nat + 1 > usize::MAX as nat;
                }
                if layers[i].neurons == 0 {
                    proof {
                        assert(layers@[i as int].neurons as nat * (layers@[i - 1].neurons as nat + 1) == 0) by (nonlinear_arith)
                            requires layers@[i as int].neurons == 0;
                    }
                    i += 1;
                    continue;
                }
                proof {
                    assert(layers@[i as int].neurons as nat * (usize::MAX as nat + 1) > usize::MAX) by (nonlinear_arith)
                        requires layers@[i as int].neurons >= 1;
                }
                return None;
            },
        };
        let part = match layers[i].neurons.checked_mul(per_neuron) {
            Some(v) => v,
            None => return None,
        };
        total = match total.checked_add(part) {
            Some(v) => v,
            None => return None,
        };
        i += 1;
    }
    proof {
        assert(layers@.subrange(0, i as int) =~= layers@);
    }
    Some(total)
}

impl<T> Network<T> {
    /// The network made of `layers`, in order.
    pub fn new(layers: Vec<Layer<T>>) -> (r: Self)
        ensures
            r@ == layers@.map_values(|l: Layer<T>| l@),
    {
        Network { layers }
    }
}

impl<T: Copy + PartialOrd + From<i8> + SampleUniform> Network<T> where UniformFloat<T>: UniformSampler {
    /// A network of the given topology with every bias and weight drawn
    /// uniformly from -1 to 1, layer by layer and neuron by neuron, in the
    /// order of the flat weight sequence.
    pub fn random<R: rand::RngCore + ?Sized>(rng: &mut R, layers: &[LayerTopology]) -> (r: Self)
        requires
            layers@.len() > 1,
        ensures
            fits(r@, layers@),
            accepts(r@, layers@[0].neurons as nat),
            output_len(r@, layers@[0].neurons as nat) == layers@.last().neurons,
            forall|i: int, j: int| 0 <= i < r@.len() && 0 <= j < r@[i].len() ==> unit_neuron(#[trigger] r@[i][j]),
    {
        let mut built: Vec<Layer<T>> = Vec::new();
        let mut i: usize = 0;
        while i < layers.len() - 1
            invariant
                layers@.len() > 1,
                i <= layers@.len() - 1,
                built@.len() == i,
                forall|k: int, j: int|
                    0 <= k < i && 0 <= j < built@[k]@.len() ==> unit_neuron(#[trigger] built@[k]@[j]),
                forall|k: int|
                    0 <= k < i ==> layer_fits(
                        (#[trigger] built@[k])@,
                        layers@[k].neurons as nat,
                        layers@[k + 1].neurons as nat,
                    ),
            decreases layers@.len() - 1 - i,
        {
            let layer = Layer::random(rng, layers[i].neurons, layers[i + 1].neurons);
            built.push(layer);
            i += 1;
        }
        let r = Network { layers: built };
        proof {
            assert forall|k: int| 0 <= k < r@.len() implies layer_fits(
                #[trigger] r@[k],
                layers@[k].neurons as nat,
                layers@[k + 1].neurons as nat,
            ) by {
                assert(r@[k] == r.layers@[k]@);
            }
            assert forall|k: int, j: int| 0 <= k < r@.len() && 0 <= j < r@[k].len() implies unit_neuron(
                #[trigger] r@[k][j],
            ) by {
                assert(r@[k] == r.layers@[k]@);
            }
            lemma_fits_shape(r@, layers@);
        }
        r
    }
}

impl<T: Copy + PartialOrd + From<i8> + Add<Output = T> + Mul<Output = T>> Network<T> {
    /// Feeds `inputs` through the layers in order.
    pub fn propagate(&self, inputs: Vec<T>) -> (r: Vec<T>)
        requires
            accepts(self@, inputs@.len()),
            network_arith_ok(self@, inputs@),
        ensures
            r@.len() == output_len(self@, inputs@.len()),
            modelled_arithmetic::<T>() ==> r@ == network_output(self@, inputs@),
    {
        let ghost n = inputs@.len();
        let ghost x = inputs@;
        let mut values = inputs;
        let mut i: usize = 0;
        while i < self.layers.len()
            invariant
                i <= self.layers@.len(),
                accepts(self@, n),
                network_arith_ok(self@, x),
                values@.len() == if i == 0 {
                    n
                } else {
                    self@[i - 1].len()
                },
                n == x.len(),
                modelled_arithmetic::<T>() ==> values@ == network_output(self@.subrange(0, i as int), x),
            decreases self.layers@.len() - i,
        {
            proof {
                assert(self@[i as int] == self.layers@[i as int]@);
                assert forall|j: int| 0 <= j < self@[i as int].len() implies (
                #[trigger] self@[i as int][j]).1.len() == values@.len() by {
                    assert(self@[i as int][j].1.len() == if i == 0 {
                        n
                    } else {
                        self@[i - 1].len()
                    });
                }
                assert forall|j: int| 0 <= j < self@[i as int].len() implies neuron_arith_ok(
                    #[trigger] self@[i as int][j],
                    values@,
                ) by {
                    assert(neuron_arith_ok(self@[i as int][j], network_output(self@.subrange(0, i as int), x)));
                }
            }
            let ghost before = values@;
            values = self.layers[i].propagate(values);
            proof {
                let s = self@.subrange(0, i + 1);
                assert(s.drop_last() =~= self@.subrange(0, i as int));
                assert(s.last() == self@[i as int]);
            }
            i += 1;
        }
        proof {
            assert(self@.subrange(0, i as int) =~= self@);
        }
        values
    }
}

impl<T: Copy> Network<T> {
    /// The flat weight sequence: layer by layer, neuron by neuron, each
    /// neuron's bias followed by its weights.
    pub fn weights(&self) -> (r: Vec<T>)
        ensures
            r@ == network_code(self@),
    {
        let mut out: Vec<T> = Vec::new();
        let mut i: usize = 0;
        while i < self.layers.len()
            invariant
                i <= self.layers@.len(),
                out@ == network_code(self@.subrange(0, i as int)),
            decreases self.layers@.len() - i,
        {
            let layer = &self.layers[i];
            let ghost base = out@;
            let mut j: usize = 0;
            while j < layer.neurons.len()
                invariant
                    j <= layer.neurons@.len(),
                    layer == self.layers@[i as int],
                    out@ == base + layer_code(layer@.subrange(0, j as int)),
                decreases layer.neurons@.len() - j,
            {
                let neuron = &layer.neurons[j];
                let ghost mid = out@;
                out.push(neuron.bias);
                let mut k: usize = 0;
                while k < neuron.weights.len()
                    invariant
                        k <= neuron.weights@.len(),
                        out@ == mid + seq![neuron.bias] + neuron.weights@.subrange(0, k as int),
                    decreases neuron.weights@.len() - k,
                {
                    out.push(neuron.weights[k]);
                    k += 1;
                    proof {
                        assert(out@ =~= mid + seq![neuron.bias] + neuron.weights@.subrange(0, k as int));
                    }
                }
                proof {
                    let s = layer@.subrange(0, j + 1);
                    assert(s.drop_last() =~= layer@.subrange(0, j as int));
                    assert(s.last() == neuron@);
                    assert(neuron.weights@.subrange(0, k as int) =~= neuron.weights@);
                    assert(out@ =~= base + layer_code(s));
                }
                j += 1;
            }
            proof {
                let s = self@.subrange(0, i + 1);
                assert(s.drop_last() =~= self@.subrange(0, i as int));
                assert(s.last() == layer@);
                assert(layer@.subrange(0, j as int) =~= layer@);
                assert(out@ =~= network_code(s));
            }
            i += 1;
        }
        proof {
            assert(self@.subrange(0, i as int) =~= self@);
        }
        out
    }

    /// The network of the given topology whose flat weight sequence is
    /// `weights`: the inverse of `Network::weights`.
    pub fn from_weights(layers: &[LayerTopology], weights: Vec<T>) -> (r: Self)
        requires
            layers@.len() > 1,
            weights@.len() == weight_count(layers@),
        ensures
            fits(r@, layers@),
            network_code(r@) == weights@,
            accepts(r@, layers@[0].neurons as nat),
            output_len(r@, layers@[0].neurons as nat) == layers@.last().neurons,
    {
        let mut built: Vec<Layer<T>> = Vec::new();
        let mut pos: usize = 0;
        let mut i: usize = 0;
        while i < layers.len() - 1
            invariant
                layers@.len() > 1,
                weights@.len() == weight_count(layers@),
                i <= layers@.len() - 1,
                built@.len() == i,
                pos == weight_count(layers@.subrange(0, i + 1)),
                forall|k: int|
                    0 <= k < i ==> layer_fits(
                        (#[trigger] built@[k])@,
                        layers@[k].neurons as nat,
                        layers@[k + 1].neurons as nat,
                    ),
                network_code(built@.map_values(|l: Layer<T>| l@)) == weights@.subrange(0, pos as int),
            decreases layers@.len() - 1 - i,
        {
            proof {
                let t2 = layers@.subrange(0, i + 2);
                assert(t2.drop_last() =~= layers@.subrange(0, i + 1));
                assert(t2.last() == layers@[i + 1]);
                assert(t2[t2.len() - 2] == layers@[i as int]);
                lemma_weight_count_prefix(layers@, i + 2);
            }
            let (layer, next) = Layer::from_weights(layers[i].neurons, layers[i + 1].neurons, weights.as_slice(), pos);
            let ghost before = built@.map_values(|l: Layer<T>| l@);
            built.push(layer);
            proof {
                let after = built@.map_values(|l: Layer<T>| l@);
                assert(after.drop_last() =~= before);
                assert(after.last() == layer@);
                assert(weights@.subrange(0, next as int) =~= weights@.subrange(0, pos as int)
                    + weights@.subrange(pos as int, next as int));
            }
            pos = next;
            i += 1;
        }
        let r = Network { layers: built };
        proof {
            assert(layers@.subrange(0, i + 1) =~= layers@);
            assert(weights@.subrange(0, pos as int) =~= weights@);
            assert(r@ =~= built@.map_values(|l: Layer<T>| l@));
            assert forall|k: int| 0 <= k < r@.len() implies layer_fits(
                #[trigger] r@[k],
                layers@[k].neurons as nat,
                layers@[k + 1].neurons as nat,
            ) by {
                assert(r@[k] == r.layers@[k]@);
            }
            lemma_fits_shape(r@, layers@);
        }
        r
    }
}

} // verus!
