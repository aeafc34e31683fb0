//! Clamping, and the feed-forward network.
use vstd::prelude::*;
use vstd::seq_lib::lemma_flatten_concat;

verus! {

/// Values that can be held between two bounds.
pub trait ClampExt: Sized {
    /// `self` where it lies between the bounds, else the bound it passed:
    /// `hi` where it is above `hi`, and otherwise `lo` where it is below `lo`.
    spec fn clamped(&self, lo: Self, hi: Self) -> Self;

    /// Computes `clamped`.
    fn clamp(&self, lo: Self, hi: Self) -> (held: Self)
        ensures
            held == self.clamped(lo, hi),
    ;
}

impl ClampExt for i32 {
    open spec fn clamped(&self, lo: i32, hi: i32) -> i32 {
        if *self > hi {
            hi
        } else if *self < lo {
            lo
        } else {
            *self
        }
    }

    fn clamp(&self, lo: i32, hi: i32) -> (held: i32) {
        if *self > hi {
            hi
        } else if *self < lo {
            lo
        } else {
            *self
        }
    }
}

/// One neuron: a weight for each of its inputs, then the weight of its bias.
#[derive(Debug, PartialEq)]
pub struct Neuron<W> {
    weights: Vec<W>,
}

impl<W> View for Neuron<W> {
    type V = Seq<W>;

    closed spec fn view(&self) -> Seq<W> {
        self.weights@
    }
}

/// One layer: neurons that all read the same inputs.
#[derive(Debug, PartialEq)]
pub struct NeuronLayer<W> {
    neurons: Vec<Neuron<W>>,
}

impl<W> View for NeuronLayer<W> {
    type V = Seq<Seq<W>>;

    closed spec fn view(&self) -> Seq<Seq<W>> {
        self.neurons@.map_values(|n: Neuron<W>| n@)
    }
}

/// A feed-forward network as the contracts see it: for each layer, for each
/// of its neurons, the neuron's weights.
pub struct NetView<W> {
    pub input_count: usize,
    pub layers: Seq<Seq<Seq<W>>>,
}

/// A feed-forward network: hidden layers of one width, then an output layer.
/// The type leaves open what a weight is; the library moves weights and
/// never computes with them.
#[derive(Debug, PartialEq)]
pub struct NeuralNet<W> {
    input_count: usize,
    layers: Vec<NeuronLayer<W>>,
}

impl<W> View for NeuralNet<W> {
    type V = NetView<W>;

    closed spec fn view(&self) -> NetView<W> {
        NetView { input_count: self.input_count, layers: self.layers@.map_values(|l: NeuronLayer<W>| l@) }
    }
}

/// The neurons of layer `layer` in a network with `hidden` hidden layers:
/// the output layer comes last, every layer before it is hidden.
pub open spec fn layer_size(output: usize, hidden: usize, width: usize, layer: nat) -> nat {
    if layer >= hidden {
        output as nat
    } else {
        width as nat
    }
}

/// The weights of one neuron of layer `layer`: one for each input of the
/// layer, and one for the bias. The first layer reads the network's inputs,
/// every other layer reads a hidden layer.
pub open spec fn neuron_size(input: usize, width: usize, layer: nat) -> nat {
    if layer == 0 {
        (input + 1) as nat
    } else {
        (width + 1) as nat
    }
}

/// Where the weights of layer `layer` begin in the flat vector: behind
/// those of all layers before it.
pub open spec fn layer_start(input: usize, output: usize, hidden: usize, width: usize, layer: nat) -> nat
    decreases layer,
{
    if layer == 0 {
        0
    } else {
        let before = (layer - 1) as nat;
        layer_start(input, output, hidden, width, before) + layer_size(output, hidden, width, before)
            * neuron_size(input, width, before)
    }
}

/// The number of weights of a network: the end of its output layer.
pub open spec fn weight_count(input: usize, output: usize, hidden: usize, width: usize) -> nat {
    layer_start(input, output, hidden, width, (hidden + 1) as nat)
}

/// A layer cut from a run of weights: neuron `c` takes the `c`-th block of
/// `stride` weights.
pub open spec fn layer_of<W>(neurons: nat, stride: nat, weights: Seq<W>) -> Seq<Seq<W>> {
    Seq::new(neurons, |c: int| weights.subrange(c * stride, (c + 1) * stride))
}

/// The layers cut from a flat vector: layer `l` takes the weights from
/// `layer_start(l)` up to `layer_start(l + 1)`.
pub open spec fn layers_of<W>(input: usize, output: usize, hidden: usize, width: usize, weights: Seq<W>) -> Seq<Seq<Seq<W>>> {
    Seq::new(
        (hidden + 1) as nat,
        |l: int|
            layer_of(
                layer_size(output, hidden, width, l as nat),
                neuron_size(input, width, l as nat),
                weights.subrange(
                    layer_start(input, output, hidden, width, l as nat) as int,
                    layer_start(input, output, hidden, width, (l + 1) as nat) as int,
                ),
            ),
    )
}

/// All weights of some layers in one run: layer by layer, neuron by neuron.
pub open spec fn flat<W>(layers: Seq<Seq<Seq<W>>>) -> Seq<W> {
    layers.map_values(|l: Seq<Seq<W>>| l.flatten()).flatten()
}

/// Whether some layers have the topology that the four counts describe.
pub open spec fn shaped<W>(layers: Seq<Seq<Seq<W>>>, input: usize, output: usize, hidden: usize, width: usize) -> bool {
    &&& layers.len() == hidden + 1
    &&& forall|l: int|
        0 <= l < layers.len() ==> (#[trigger] layers[l]).len() == layer_size(output, hidden, width, l as nat)
    &&& forall|l: int, c: int|
        0 <= l < layers.len() && 0 <= c < layers[l].len() ==> (#[trigger] layers[l][c]).len() == neuron_size(
            input,
            width,
            l as nat,
        )
}

impl<W: Copy> Neuron<W> {
    /// A neuron with the given weights.
    pub fn with_weights(weights: &[W]) -> (neuron: Neuron<W>)
        ensures
            neuron@ == weights@,
    {
        let mut vec: Vec<W> = Vec::with_capacity(weights.len());
        for k in 0..weights.len()
            invariant
                vec@ == weights@.take(k as int),
        {
            vec.push(weights[k]);
            assert(vec@ =~= weights@.take(k + 1));
        }
        assert(vec@ =~= weights@);
        Neuron { weights: vec }
    }
}

impl<W: Copy> NeuronLayer<W> {
    /// A layer of `neuron_count` neurons that share the given weights
    /// evenly: each takes the next `weights.len() / neuron_count` of them.
    pub fn with_weights(neuron_count: usize, weights: &[W]) -> (layer: NeuronLayer<W>)
        requires
            neuron_count > 0,
        ensures
            layer@ == layer_of(neuron_count as nat, (weights@.len() / neuron_count as nat) as nat, weights@),
    {
        let mut vec: Vec<Neuron<W>> = Vec::with_capacity(neuron_count);
        let stride = weights.len() / neuron_count;
        proof {
            vstd::arithmetic::div_mod::lemma_fundamental_div_mod(weights@.len() as int, neuron_count as int);
            vstd::arithmetic::mul::lemma_mul_is_commutative(stride as int, neuron_count as int);
            assert(neuron_count * stride <= weights@.len() == weights.len());
        }
        for c in 0..neuron_count
            invariant
                neuron_count * stride <= weights@.len() <= usize::MAX,
                vec@.len() == c,
                forall|j: int| 0 <= j < c ==> (#[trigger] vec@[j])@ == weights@.subrange(j * stride, (j + 1) * stride),
        {
            assert(c * stride <= (c + 1) * stride <= neuron_count * stride && 0 <= c * stride)
                by (nonlinear_arith)
                requires
                    0 <= c < neuron_count,
                    0 <= stride,
            ;
            vec.push(Neuron::with_weights(&weights[c * stride..(c + 1) * stride]));
        }
        let layer = NeuronLayer { neurons: vec };
        assert(layer@ =~= layer_of(neuron_count as nat, stride as nat, weights@));
        layer
    }
}

/// The value that weight `k` of a neuron is paired with: input `k`, and
/// behind the last input the constant input of the bias.
pub open spec fn paired<W>(inputs: Seq<W>, bias_input: W, k: int) -> W {
    if k < inputs.len() {
        inputs[k]
    } else {
        bias_input
    }
}

/// How many weights of a neuron take part in its sum: one for each input
/// and one for the bias, as far as there are weights.
pub open spec fn pairs<W>(weights: Seq<W>, inputs: Seq<W>) -> nat {
    if weights.len() <= inputs.len() {
        weights.len()
    } else {
        (inputs.len() + 1) as nat
    }
}

/// Whether `sum` is a value that the first `k` pairs may add up to: `accrue`
/// was handed the sum so far, a weight and the value paired with it, pair
/// by pair from the first, starting at `zero`.
pub open spec fn accrues<W, M: Fn(W, W, W) -> W>(
    accrue: M,
    weights: Seq<W>,
    inputs: Seq<W>,
    zero: W,
    bias_input: W,
    k: nat,
    sum: W,
) -> bool
    decreases k,
{
    if k == 0 {
        sum == zero
    } else {
        let j = (k - 1) as nat;
        exists|before: W|
            accrues(accrue, weights, inputs, zero, bias_input, j, before) && #[trigger] accrue.ensures(
                (before, weights[j as int], paired(inputs, bias_input, j as int)),
                sum,
            )
    }
}

/// The weighted sum of a neuron's inputs: `accrue` adds to the sum so far
/// the product of a weight and the value paired with it. The weights pair
/// with the inputs in order, the weight behind them with `bias_input`, and
/// weights beyond that take no part.
pub fn weigh<W: Copy, M: Fn(W, W, W) -> W>(weights: &[W], inputs: &[W], zero: W, bias_input: W, accrue: &M) -> (sum: W)
    requires
        forall|acc: W, w: W, v: W| accrue.requires((acc, w, v)),
    ensures
        accrues(*accrue, weights@, inputs@, zero, bias_input, pairs(weights@, inputs@), sum),
{
    let n = if weights.len() <= inputs.len() { weights.len() } else { inputs.len() + 1 };
    let mut sum = zero;
    for k in 0..n
        invariant
            n == pairs(weights@, inputs@),
            forall|acc: W, w: W, v: W| accrue.requires((acc, w, v)),
            accrues(*accrue, weights@, inputs@, zero, bias_input, k as nat, sum),
    {
        let value = if k < inputs.len() { inputs[k] } else { bias_input };
        let ghost before = sum;
        sum = accrue(sum, weights[k], value);
        proof {
            let j = ((k + 1) - 1) as nat;
            assert(accrues(*accrue, weights@, inputs@, zero, bias_input, j, before));
            assert(accrue.ensures((before, weights@[j as int], paired(inputs@, bias_input, j as int)), sum));
        }
    }
    sum
}

/// Whether `out` is a value that `activate` may return for a neuron with
/// these weights on these inputs.
pub open spec fn neuron_fires<W, F: Fn(&[W], &[W]) -> W>(activate: F, weights: Seq<W>, inputs: Seq<W>, out: W) -> bool {
    exists|w: &[W], v: &[W]| w@ == weights && v@ == inputs && activate.ensures((w, v), out)
}

/// Whether `out` holds, for each neuron of the layer in turn, a value that
/// `activate` may return for it on these inputs.
pub open spec fn layer_fires<W, F: Fn(&[W], &[W]) -> W>(activate: F, layer: Seq<Seq<W>>, inputs: Seq<W>, out: Seq<W>) -> bool {
    &&& out.len() == layer.len()
    &&& forall|c: int| 0 <= c < layer.len() ==> neuron_fires(activate, #[trigger] layer[c], inputs, out[c])
}

/// Whether `out` is what the layers may make of `inputs`: each layer fires
/// on what the layer before it gave, the first on the inputs themselves.
pub open spec fn relays<W, F: Fn(&[W], &[W]) -> W>(activate: F, layers: Seq<Seq<Seq<W>>>, inputs: Seq<W>, out: Seq<W>) -> bool
    decreases layers.len(),
{
    if layers.len() == 0 {
        out == inputs
    } else {
        exists|mid: Seq<W>|
            relays(activate, layers.drop_last(), inputs, mid) && layer_fires(activate, layers.last(), mid, out)
    }
}

impl<W> NeuronLayer<W> {
    /// The layer's answer to `inputs`: one value of `activate` per neuron.
    pub fn fire<F: Fn(&[W], &[W]) -> W>(&self, inputs: &[W], activate: &F) -> (out: Vec<W>)
        requires
            forall|w: &[W], v: &[W]| activate.requires((w, v)),
        ensures
            layer_fires(*activate, self@, inputs@, out@),
    {
        let mut out: Vec<W> = Vec::with_capacity(self.neurons.len());
        for c in 0..self.neurons.len()
            invariant
                forall|w: &[W], v: &[W]| activate.requires((w, v)),
                out@.len() == c,
                forall|j: int| 0 <= j < c ==> neuron_fires(*activate, #[trigger] self@[j], inputs@, out@[j]),
        {
            let value = activate(self.neurons[c].weights.as_slice(), inputs);
            out.push(value);
        }
        out
    }
}

impl<W> Neuron<W> {
    /// A neuron for `input_count` inputs, each of its weights a value that
    /// `draw` gave.
    pub fn new<F: Fn() -> W>(input_count: usize, draw: &F) -> (neuron: Neuron<W>)
        requires
            input_count < usize::MAX,
            draw.requires(()),
        ensures
            neuron@.len() == input_count + 1,
            forall|k: int| 0 <= k < neuron@.len() ==> draw.ensures((), #[trigger] neuron@[k]),
    {
        let mut vec: Vec<W> = Vec::with_capacity(input_count + 1);
        for k in 0..input_count + 1
            invariant
                draw.requires(()),
                vec@.len() == k,
                forall|j: int| 0 <= j < k ==> draw.ensures((), #[trigger] vec@[j]),
        {
            vec.push(draw());
        }
        Neuron { weights: vec }
    }
}

impl<W> NeuronLayer<W> {
    /// A layer of `neuron_count` neurons for `inputs_per_neuron` inputs
    /// each, every weight a value that `draw` gave.
    pub fn new<F: Fn() -> W>(neuron_count: usize, inputs_per_neuron: usize, draw: &F) -> (layer: NeuronLayer<W>)
        requires
            inputs_per_neuron < usize::MAX,
            draw.requires(()),
        ensures
            layer@.len() == neuron_count,
            forall|c: int| 0 <= c < layer@.len() ==> (#[trigger] layer@[c]).len() == inputs_per_neuron + 1,
            forall|c: int, k: int|
                0 <= c < layer@.len() && 0 <= k < layer@[c].len() ==> draw.ensures((), #[trigger] layer@[c][k]),
    {
        let mut vec: Vec<Neuron<W>> = Vec::with_capacity(neuron_count);
        for n in 0..neuron_count
            invariant
                inputs_per_neuron < usize::MAX,
                draw.requires(()),
                vec@.len() == n,
                forall|c: int| 0 <= c < n ==> (#[trigger] vec@[c])@.len() == inputs_per_neuron + 1,
                forall|c: int, k: int|
                    0 <= c < n && 0 <= k < vec@[c]@.len() ==> draw.ensures((), #[trigger] vec@[c]@[k]),
        {
            vec.push(Neuron::new(inputs_per_neuron, draw));
        }
        NeuronLayer { neurons: vec }
    }
}

/// The layer that a flat vector holds from `offset` on, `neurons` neurons
/// of `inputs + 1` weights each, and the offset behind it.
fn cut_layer<W: Copy>(neurons: usize, inputs: usize, weights: &[W], offset: usize) -> (cut: (NeuronLayer<W>, usize))
    requires
        offset + neurons * (inputs + 1) <= weights@.len(),
    ensures
        cut.0@ == layer_of(
            neurons as nat,
            (inputs + 1) as nat,
            weights@.subrange(offset as int, offset + neurons * (inputs + 1)),
        ),
        cut.1 == offset + neurons * (inputs + 1),
{
    if neurons == 0 {
        let layer = NeuronLayer { neurons: Vec::new() };
        assert(neurons * (inputs + 1) == 0) by (nonlinear_arith)
            requires
                neurons == 0,
        ;
        assert(layer@ =~= layer_of(
            neurons as nat,
            (inputs + 1) as nat,
            weights@.subrange(offset as int, offset + neurons * (inputs + 1)),
        ));
        return (layer, offset);
    }
    assert(inputs + 1 <= neurons * (inputs + 1)) by (nonlinear_arith)
        requires
            neurons >= 1,
            inputs >= 0,
    ;
    assert(weights@.len() == weights.len());
    let stride = inputs + 1;
    let block = neurons * stride;
    proof {
        vstd::arithmetic::div_mod::lemma_div_by_multiple(stride as int, neurons as int);
        vstd::arithmetic::mul::lemma_mul_is_commutative(stride as int, neurons as int);
    }
    (NeuronLayer::with_weights(neurons, &weights[offset..offset + block]), offset + block)
}

impl<W> NeuralNet<W> {
    /// A network of the given topology, every weight a value that `draw`
    /// gave.
    pub fn new<F: Fn() -> W>(
        input_count: usize,
        output_count: usize,
        hidden_layer_count: usize,
        neurons_per_hidden_layer: usize,
        draw: &F,
    ) -> (net: NeuralNet<W>)
        requires
            input_count < usize::MAX,
            hidden_layer_count > 0 ==> neurons_per_hidden_layer < usize::MAX,
            draw.requires(()),
        ensures
            net@.input_count == input_count,
            shaped(net@.layers, input_count, output_count, hidden_layer_count, neurons_per_hidden_layer),
            forall|l: int, c: int, k: int|
                0 <= l < net@.layers.len() && 0 <= c < net@.layers[l].len() && 0 <= k < net@.layers[l][c].len()
                    ==> draw.ensures((), #[trigger] net@.layers[l][c][k]),
    {
        let mut vec: Vec<NeuronLayer<W>> = Vec::new();
        if hidden_layer_count > 0 {
            vec.push(NeuronLayer::new(neurons_per_hidden_layer, input_count, draw));
            for l in 1..hidden_layer_count
                invariant
                    neurons_per_hidden_layer < usize::MAX,
                    draw.requires(()),
                    vec@.len() == l,
                    forall|j: int|
                        0 <= j < l ==> (#[trigger] vec@[j])@.len() == layer_size(
                            output_count,
                            hidden_layer_count,
                            neurons_per_hidden_layer,
                            j as nat,
                        ),
                    forall|j: int, c: int|
                        0 <= j < l && 0 <= c < vec@[j]@.len() ==> (#[trigger] vec@[j]@[c]).len() == neuron_size(
                            input_count,
                            neurons_per_hidden_layer,
                            j as nat,
                        ),
                    forall|j: int, c: int, k: int|
                        0 <= j < l && 0 <= c < vec@[j]@.len() && 0 <= k < vec@[j]@[c].len() ==> draw.ensures(
                            (),
                            #[trigger] vec@[j]@[c][k],
                        ),
            {
                vec.push(NeuronLayer::new(neurons_per_hidden_layer, neurons_per_hidden_layer, draw));
            }
            vec.push(NeuronLayer::new(output_count, neurons_per_hidden_layer, draw));
        } else {
            vec.push(NeuronLayer::new(output_count, input_count, draw));
        }
        NeuralNet { input_count: input_count, layers: vec }
    }

    /// The network's weights in one vector: layer by layer, neuron by
    /// neuron, each neuron's bias weight last.
    pub fn get_weights(&self) -> (weights: Vec<W>)
        where W: Copy
        ensures
            weights@ == flat(self@.layers),
    {
        let mut ret: Vec<W> = Vec::new();
        let ghost join = |l: Seq<Seq<W>>| l.flatten();
        assert(self@.layers.take(0).map_values(join) =~= Seq::<Seq<W>>::empty());
        for l in 0..self.layers.len()
            invariant
                ret@ == flat(self@.layers.take(l as int)),
        {
            let layer = &self.layers[l];
            let ghost done = ret@;
            assert(layer@.take(0) =~= Seq::<Seq<W>>::empty());
            for c in 0..layer.neurons.len()
                invariant
                    ret@ == done + layer@.take(c as int).flatten(),
            {
                let neuron = &layer.neurons[c];
                let ghost sofar = ret@;
                for k in 0..neuron.weights.len()
                    invariant
                        ret@ == sofar + neuron@.take(k as int),
                {
                    ret.push(neuron.weights[k]);
                    assert(neuron@.take(k + 1) =~= neuron@.take(k as int).push(neuron@[k as int]));
                }
                proof {
                    assert(neuron@.take(neuron@.len() as int) =~= neuron@);
                    assert(layer@.take(c + 1) =~= layer@.take(c as int).push(neuron@));
                    layer@.take(c as int).lemma_flatten_push(neuron@);
                    assert(ret@ =~= done + layer@.take(c + 1).flatten());
                }
            }
            proof {
                assert(layer@.take(layer@.len() as int) =~= layer@);
                lemma_flat_push(self@.layers, l as int);
            }
        }
        assert(self@.layers.take(self@.layers.len() as int) =~= self@.layers);
        ret
    }

    /// The network of the given topology whose weights, in the order of
    /// `get_weights`, are `weights`; `None` unless there are exactly as
    /// many weights as the topology asks for.
    pub fn with_weights(
        input_count: usize,
        output_count: usize,
        hidden_layer_count: usize,
        neurons_per_hidden_layer: usize,
        weights: &[W],
    ) -> (net: Option<NeuralNet<W>>)
        where W: Copy
        ensures
            net.is_some() <==> weights@.len() == weight_count(
                input_count,
                output_count,
                hidden_layer_count,
                neurons_per_hidden_layer,
            ),
            net matches Some(n) ==> n@ == (NetView {
                input_count: input_count,
                layers: layers_of(
                    input_count,
                    output_count,
                    hidden_layer_count,
                    neurons_per_hidden_layer,
                    weights@,
                ),
            }),
            net matches Some(n) ==> shaped(
                n@.layers,
                input_count,
                output_count,
                hidden_layer_count,
                neurons_per_hidden_layer,
            ),
    {
        assert(weights@.len() == weights.len());
        match count_weights(input_count, output_count, hidden_layer_count, neurons_per_hidden_layer) {
            Some(n) => {
                if weights.len() != n {
                    return None;
                }
            },
            None => {
                return None;
            },
        }
        let ghost want = layers_of(
            input_count,
            output_count,
            hidden_layer_count,
            neurons_per_hidden_layer,
            weights@,
        );
        let mut vec: Vec<NeuronLayer<W>> = Vec::new();
        let mut offset: usize = 0;
        for l in 0..hidden_layer_count
            invariant
                weights@.len() == weight_count(
                    input_count,
                    output_count,
                    hidden_layer_count,
                    neurons_per_hidden_layer,
                ),
                want == layers_of(
                    input_count,
                    output_count,
                    hidden_layer_count,
                    neurons_per_hidden_layer,
                    weights@,
                ),
                offset == layer_start(
                    input_count,
                    output_count,
                    hidden_layer_count,
                    neurons_per_hidden_layer,
                    l as nat,
                ),
                vec@.len() == l,
                forall|j: int| 0 <= j < l ==> (#[trigger] vec@[j])@ == want[j],
        {
            proof {
                lemma_layer_start_grows(
                    input_count,
                    output_count,
                    hidden_layer_count,
                    neurons_per_hidden_layer,
                    (l + 1) as nat,
                    (hidden_layer_count + 1) as nat,
                );
            }
            let inputs = if l == 0 { input_count } else { neurons_per_hidden_layer };
            let (layer, end) = cut_layer(neurons_per_hidden_layer, inputs, weights, offset);
            offset = end;
            vec.push(layer);
        }
        let inputs = if hidden_layer_count == 0 { input_count } else { neurons_per_hidden_layer };
        let (layer, _) = cut_layer(output_count, inputs, weights, offset);
        vec.push(layer);
        let net = NeuralNet { input_count: input_count, layers: vec };
        assert(net@.layers =~= want);
        proof {
            lemma_flat_of_layers(input_count, output_count, hidden_layer_count, neurons_per_hidden_layer, weights@);
        }
        Some(net)
    }

    /// Feeds `inputs` through the layers in order; `activate` gives each
    /// neuron's answer from the neuron's weights and the layer's inputs.
    /// `None` unless there is exactly one input for each input of the
    /// network.
    pub fn update<F: Fn(&[W], &[W]) -> W>(&self, inputs: Vec<W>, activate: &F) -> (outputs: Option<Vec<W>>)
        requires
            forall|w: &[W], v: &[W]| activate.requires((w, v)),
        ensures
            outputs.is_some() <==> inputs@.len() == self@.input_count,
            outputs matches Some(out) ==> relays(*activate, self@.layers, inputs@, out@),
    {
        if inputs.len() != self.input_count {
            return None;
        }
        let ghost given = inputs@;
        let mut acc = inputs;
        assert(self@.layers.take(0) =~= Seq::<Seq<Seq<W>>>::empty());
        for l in 0..self.layers.len()
            invariant
                forall|w: &[W], v: &[W]| activate.requires((w, v)),
                relays(*activate, self@.layers.take(l as int), given, acc@),
        {
            let ghost before = acc@;
            acc = self.layers[l].fire(acc.as_slice(), activate);
            proof {
                let upto = self@.layers.take(l + 1);
                assert(upto.drop_last() =~= self@.layers.take(l as int));
                assert(upto.last() == self.layers[l as int]@);
                assert(relays(*activate, upto.drop_last(), given, before) && layer_fires(
                    *activate,
                    upto.last(),
                    before,
                    acc@,
                ));
            }
        }
        assert(self@.layers.take(self@.layers.len() as int) =~= self@.layers);
        Some(acc)
    }
}

/// `neurons * (inputs + 1)`, the weights of a layer, where that fits.
fn layer_weights(neurons: usize, inputs: usize) -> (count: Option<usize>)
    ensures
        match count {
            Some(n) => n == neurons * (inputs + 1),
            None => neurons * (inputs + 1) > usize::MAX,
        },
{
    if neurons == 0 {
        return Some(0);
    }
    assert(neurons * (inputs + 1) >= inputs + 1) by (nonlinear_arith)
        requires
            neurons >= 1,
            inputs >= 0,
    ;
    match inputs.checked_add(1) {
        Some(stride) => neurons.checked_mul(stride),
        None => None,
    }
}

/// Computes `weight_count`, where it fits.
pub fn count_weights(input: usize, output: usize, hidden: usize, width: usize) -> (count: Option<usize>)
    ensures
        match count {
            Some(n) => n == weight_count(input, output, hidden, width),
            None => weight_count(input, output, hidden, width) > usize::MAX,
        },
{
    proof {
        lemma_weight_count_formula(input, output, hidden, width);
    }
    if hidden == 0 {
        return layer_weights(output, input);
    }
    let ghost first = width * (input + 1);
    let ghost between = (hidden - 1) * (width * (width + 1));
    let ghost last = output * (width + 1);
    assert(first >= 0 && between >= 0 && last >= 0) by (nonlinear_arith)
        requires
            first == width * (input + 1),
            between == (hidden - 1) * (width * (width + 1)),
            last == output * (width + 1),
            hidden >= 1,
    ;
    let init = match layer_weights(width, input) {
        Some(n) => n,
        None => { return None; },
    };
    let middle = if hidden == 1 {
        assert(between == 0) by (nonlinear_arith)
            requires
                between == (hidden - 1) * (width * (width + 1)),
                hidden == 1,
        ;
        0
    } else {
        assert(between >= width * (width + 1)) by (nonlinear_arith)
            requires
                between == (hidden - 1) * (width * (width + 1)),
                hidden >= 2,
        ;
        let stride = match layer_weights(width, width) {
            Some(n) => n,
            None => { return None; },
        };
        match (hidden - 1).checked_mul(stride) {
            Some(n) => n,
            None => { return None; },
        }
    };
    let fin = match layer_weights(output, width) {
        Some(n) => n,
        None => { return None; },
    };
    match init.checked_add(middle) {
        Some(n) => n.checked_add(fin),
        None => None,
    }
}

/// The weights of a network, counted layer by layer: with no hidden layer,
/// `output * (input + 1)`; else `width * (input + 1)` for the first hidden
/// layer, `width * (width + 1)` for each further one, and
/// `output * (width + 1)` for the output layer.
pub proof fn lemma_weight_count_formula(input: usize, output: usize, hidden: usize, width: usize)
    ensures
        weight_count(input, output, hidden, width) == if hidden == 0 {
            output * (input + 1)
        } else {
            width * (input + 1) + (hidden - 1) * (width * (width + 1)) + output * (width + 1)
        },
{
    reveal_with_fuel(layer_start, 2);
    if hidden > 0 {
        lemma_hidden_layer_start(input, output, hidden, width, hidden as nat);
    }
}

/// Where a layer behind the first begins, in closed form.
proof fn lemma_hidden_layer_start(input: usize, output: usize, hidden: usize, width: usize, layer: nat)
    requires
        1 <= layer <= hidden,
    ensures
        layer_start(input, output, hidden, width, layer) == width * (input + 1) + (layer - 1) * (width * (width
            + 1)),
    decreases layer,
{
    let before = (layer - 1) as nat;
    let block = width * (width + 1);
    assert(layer_start(input, output, hidden, width, layer) == layer_start(input, output, hidden, width, before)
        + layer_size(output, hidden, width, before) * neuron_size(input, width, before));
    if layer > 1 {
        lemma_hidden_layer_start(input, output, hidden, width, before);
        assert((layer - 2) * block + block == (layer - 1) * block) by (nonlinear_arith);
    } else {
        assert(layer_start(input, output, hidden, width, 0) == 0);
        assert((layer - 1) * block == 0) by (nonlinear_arith)
            requires
                layer == 1,
        ;
    }
}

/// Layers begin one behind the other.
proof fn lemma_layer_start_grows(input: usize, output: usize, hidden: usize, width: usize, l: nat, m: nat)
    requires
        l <= m,
    ensures
        layer_start(input, output, hidden, width, l) <= layer_start(input, output, hidden, width, m),
    decreases m,
{
    if l < m {
        lemma_layer_start_grows(input, output, hidden, width, l, (m - 1) as nat);
        assert(layer_size(output, hidden, width, (m - 1) as nat) * neuron_size(input, width, (m - 1) as nat) >= 0)
            by (nonlinear_arith);
    }
}

/// Cutting a run of weights into neurons and joining them again gives the
/// run back.
proof fn lemma_layer_joins<W>(neurons: nat, stride: nat, weights: Seq<W>)
    requires
        weights.len() == neurons * stride,
    ensures
        layer_of(neurons, stride, weights).flatten() == weights,
    decreases neurons,
{
    let layer = layer_of(neurons, stride, weights);
    if neurons == 0 {
        assert(layer =~= Seq::<Seq<W>>::empty());
        assert(weights =~= Seq::<W>::empty());
    } else {
        let before = (neurons - 1) as nat;
        assert(before * stride + stride == neurons * stride && before * stride >= 0) by (nonlinear_arith)
            requires
                before == neurons - 1,
        ;
        let head = weights.take((before * stride) as int);
        let tail = weights.subrange((before * stride) as int, (neurons * stride) as int);
        lemma_layer_joins(before, stride, head);
        assert forall|c: int| 0 <= c < before implies layer[c] == layer_of(before, stride, head)[c] by {
            assert(0 <= c * stride <= (c + 1) * stride <= before * stride) by (nonlinear_arith)
                requires
                    0 <= c < before,
            ;
            assert(layer[c] =~= layer_of(before, stride, head)[c]);
        }
        assert(layer =~= layer_of(before, stride, head).push(tail));
        layer_of(before, stride, head).lemma_flatten_push(tail);
        assert(head + tail =~= weights);
    }
}

/// Joining neurons of one size and cutting the run again gives the neurons
/// back.
proof fn lemma_layer_cuts<W>(layer: Seq<Seq<W>>, stride: nat)
    requires
        forall|c: int| 0 <= c < layer.len() ==> (#[trigger] layer[c]).len() == stride,
    ensures
        layer.flatten().len() == layer.len() * stride,
        layer_of(layer.len(), stride, layer.flatten()) == layer,
    decreases layer.len(),
{
    if layer.len() == 0 {
        assert(layer.flatten() =~= Seq::<W>::empty());
        assert(layer_of(layer.len(), stride, layer.flatten()) =~= layer);
    } else {
        let before = layer.drop_last();
        let n = before.len();
        lemma_layer_cuts(before, stride);
        assert(layer =~= before.push(layer.last()));
        before.lemma_flatten_push(layer.last());
        assert(n * stride + stride == (n + 1) * stride) by (nonlinear_arith);
        let run = layer.flatten();
        assert(run =~= before.flatten() + layer.last());
        assert forall|c: int| 0 <= c < layer.len() implies run.subrange(c * stride, (c + 1) * stride)
            == layer[c] by {
            if c < n {
                assert(0 <= c * stride <= (c + 1) * stride <= n * stride) by (nonlinear_arith)
                    requires
                        0 <= c < n,
                ;
                assert(run.subrange(c * stride, (c + 1) * stride) =~= before.flatten().subrange(
                    c * stride,
                    (c + 1) * stride,
                ));
                assert(layer_of(n, stride, before.flatten())[c] == before[c]);
            } else {
                assert(run.subrange(c * stride, (c + 1) * stride) =~= layer.last());
            }
        }
        assert(layer_of(layer.len(), stride, run) =~= layer);
    }
}

/// The weights of the first `k` layers, in one run, are `flat` of them:
/// taking layers and joining commute.
proof fn lemma_flat_push<W>(layers: Seq<Seq<Seq<W>>>, k: int)
    requires
        0 <= k < layers.len(),
    ensures
        flat(layers.take(k + 1)) == flat(layers.take(k)) + layers[k].flatten(),
{
    let join = |l: Seq<Seq<W>>| l.flatten();
    assert(layers.take(k + 1).map_values(join) =~= layers.take(k).map_values(join).push(layers[k].flatten()));
    layers.take(k).map_values(join).lemma_flatten_push(layers[k].flatten());
}

/// The first `k` layers cut from a flat vector hold its weights up to the
/// start of layer `k`, in order.
proof fn lemma_flat_prefix<W>(input: usize, output: usize, hidden: usize, width: usize, weights: Seq<W>, k: nat)
    requires
        weights.len() == weight_count(input, output, hidden, width),
        k <= hidden + 1,
    ensures
        flat(layers_of(input, output, hidden, width, weights).take(k as int)) == weights.take(
            layer_start(input, output, hidden, width, k) as int,
        ),
    decreases k,
{
    let layers = layers_of(input, output, hidden, width, weights);
    if k == 0 {
        assert(layers.take(0).map_values(|l: Seq<Seq<W>>| l.flatten()) =~= Seq::<Seq<W>>::empty());
        assert(flat(layers.take(0)) =~= weights.take(0));
    } else {
        let j = (k - 1) as nat;
        let from = layer_start(input, output, hidden, width, j);
        let to = layer_start(input, output, hidden, width, k);
        lemma_flat_prefix(input, output, hidden, width, weights, j);
        lemma_flat_push(layers, j as int);
        lemma_layer_start_grows(input, output, hidden, width, j, k);
        lemma_layer_start_grows(input, output, hidden, width, k, (hidden + 1) as nat);
        lemma_layer_joins(
            layer_size(output, hidden, width, j),
            neuron_size(input, width, j),
            weights.subrange(from as int, to as int),
        );
        assert(weights.take(from as int) + weights.subrange(from as int, to as int) =~= weights.take(to as int));
    }
}

/// Cutting a flat vector of the right length into layers and joining them
/// again gives the vector back, and the layers have the topology asked for.
pub proof fn lemma_flat_of_layers<W>(input: usize, output: usize, hidden: usize, width: usize, weights: Seq<W>)
    requires
        weights.len() == weight_count(input, output, hidden, width),
    ensures
        flat(layers_of(input, output, hidden, width, weights)) == weights,
        shaped(layers_of(input, output, hidden, width, weights), input, output, hidden, width),
{
    let layers = layers_of(input, output, hidden, width, weights);
    lemma_flat_prefix(input, output, hidden, width, weights, (hidden + 1) as nat);
    assert(layers.take(hidden + 1) =~= layers);
    assert(weights.take(weights.len() as int) =~= weights);
    assert forall|l: int, c: int| 0 <= l < layers.len() && 0 <= c < layers[l].len() implies (
    #[trigger] layers[l][c]).len() == neuron_size(input, width, l as nat) by {
        let from = layer_start(input, output, hidden, width, l as nat);
        let to = layer_start(input, output, hidden, width, (l + 1) as nat);
        let stride = neuron_size(input, width, l as nat);
        let size = layer_size(output, hidden, width, l as nat);
        lemma_layer_start_grows(input, output, hidden, width, (l + 1) as nat, (hidden + 1) as nat);
        assert(0 <= c * stride <= (c + 1) * stride <= size * stride && (c + 1) * stride - c * stride == stride)
            by (nonlinear_arith)
            requires
                0 <= c < size,
                0 <= stride,
        ;
    }
}

/// Joining the layers of a network and cutting the flat vector again, by
/// the network's own topology, gives the layers back; and the flat vector
/// has exactly the number of weights that the topology asks for.
pub proof fn lemma_layers_of_flat<W>(layers: Seq<Seq<Seq<W>>>, input: usize, output: usize, hidden: usize, width: usize)
    requires
        shaped(layers, input, output, hidden, width),
    ensures
        flat(layers).len() == weight_count(input, output, hidden, width),
        layers_of(input, output, hidden, width, flat(layers)) == layers,
{
    lemma_flat_blocks(layers, input, output, hidden, width, (hidden + 1) as nat);
    assert(layers.take(hidden + 1) =~= layers);
    let cut = layers_of(input, output, hidden, width, flat(layers));
    assert forall|l: int| 0 <= l < layers.len() implies cut[l] == layers[l] by {
        let from = layer_start(input, output, hidden, width, l as nat) as int;
        let to = layer_start(input, output, hidden, width, (l + 1) as nat) as int;
        lemma_flat_blocks(layers, input, output, hidden, width, l as nat);
        lemma_flat_blocks(layers, input, output, hidden, width, (l + 1) as nat);
        lemma_flat_push(layers, l);
        let join = |x: Seq<Seq<W>>| x.flatten();
        assert(layers.map_values(join) =~= layers.take(l + 1).map_values(join) + layers.skip(l + 1).map_values(
            join,
        ));
        lemma_flatten_concat(layers.take(l + 1).map_values(join), layers.skip(l + 1).map_values(join));
        assert(flat(layers) == flat(layers.take(l + 1)) + flat(layers.skip(l + 1)));
        assert(flat(layers).subrange(from, to) =~= layers[l].flatten());
        lemma_layer_cuts(layers[l], neuron_size(input, width, l as nat));
    }
    assert(cut =~= layers);
}

/// The first `k` layers of a network with the given topology hold as many
/// weights as lie before layer `k` in the flat vector.
proof fn lemma_flat_blocks<W>(layers: Seq<Seq<Seq<W>>>, input: usize, output: usize, hidden: usize, width: usize, k: nat)
    requires
        shaped(layers, input, output, hidden, width),
        k <= hidden + 1,
    ensures
        flat(layers.take(k as int)).len() == layer_start(input, output, hidden, width, k),
    decreases k,
{
    if k == 0 {
        assert(layers.take(0).map_values(|l: Seq<Seq<W>>| l.flatten()) =~= Seq::<Seq<W>>::empty());
    } else {
        let j = (k - 1) as nat;
        lemma_flat_blocks(layers, input, output, hidden, width, j);
        lemma_flat_push(layers, j as int);
        lemma_layer_cuts(layers[j as int], neuron_size(input, width, j));
    }
}

} // verus!
