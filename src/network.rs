//! Fixed-topology feed-forward networks and their flat gene encoding: for every
//! neuron, layer by layer, `[bias, weight_0, ..., weight_{k-1}]`.

use vstd::prelude::*;

verus! {

/// The number of neurons of one layer; the first layer of a topology is the
/// width of the input.
#[derive(Debug, Clone, Copy, PartialEq, Eq, Structural)]
pub struct LayerTopology {
    pub neurons: usize,
}

/// The ways in which building a network can fail.
#[derive(Debug, Clone, Copy, PartialEq, Eq, Structural)]
pub enum NetworkError {
    /// The topology has too few layers.
    TooFewLayers,
    /// The genes supplied are fewer than the topology needs.
    DimensionMismatch,
    /// The topology needs more genes than a `usize` can count.
    TooLarge,
}

/// A neuron: a bias and one weight per input.
#[derive(Debug)]
pub struct Neuron<G> {
    bias: G,
    weights: Vec<G>,
}

impl<G> View for Neuron<G> {
    type V = (G, Seq<G>);

    closed spec fn view(&self) -> (G, Seq<G>) {
        (self.bias, self.weights@)
    }
}

/// An ordered sequence of neurons that all read the same inputs.
#[derive(Debug)]
pub struct Layer<G> {
    neurons: Vec<Neuron<G>>,
}

impl<G> View for Layer<G> {
    type V = Seq<(G, Seq<G>)>;

    closed spec fn view(&self) -> Seq<(G, Seq<G>)> {
        Seq::new(self.neurons@.len(), |k: int| self.neurons@[k]@)
    }
}

/// An ordered sequence of layers; the input layer holds no neurons and is not
/// among them.
#[derive(Debug)]
pub struct NeuralNetwork<G> {
    layers: Vec<Layer<G>>,
}

impl<G> View for NeuralNetwork<G> {
    type V = Seq<Seq<(G, Seq<G>)>>;

    closed spec fn view(&self) -> Seq<Seq<(G, Seq<G>)>> {
        Seq::new(self.layers@.len(), |l: int| self.layers@[l]@)
    }
}

/// The genes of one neuron: its bias, then its weights.
pub open spec fn neuron_genes<G>(neuron: (G, Seq<G>)) -> Seq<G> {
    seq![neuron.0] + neuron.1
}

/// The genes of a layer: those of its neurons, in order.
pub open spec fn layer_genes<G>(layer: Seq<(G, Seq<G>)>) -> Seq<G>
    decreases layer.len(),
{
    if layer.len() == 0 {
        Seq::empty()
    } else {
        layer_genes(layer.drop_last()) + neuron_genes(layer.last())
    }
}

/// The genes of a network: those of its layers, in order.
pub open spec fn network_genes<G>(network: Seq<Seq<(G, Seq<G>)>>) -> Seq<G>
    decreases network.len(),
{
    if network.len() == 0 {
        Seq::empty()
    } else {
        network_genes(network.drop_last()) + layer_genes(network.last())
    }
}

/// Where the genes of the neurons of layer `l` (counted without the input
/// layer) start.
pub open spec fn layer_offset(topology: Seq<LayerTopology>, l: int) -> nat
    decreases l,
{
    if l <= 0 {
        0
    } else {
        layer_offset(topology, l - 1) + (topology[l].neurons as nat) * (topology[l - 1].neurons as nat + 1)
    }
}

/// The number of genes that a network of this topology is made of.
pub open spec fn required_genes(topology: Seq<LayerTopology>) -> nat {
    if topology.len() == 0 {
        0
    } else {
        layer_offset(topology, topology.len() - 1)
    }
}

/// The network has the shape that the topology describes.
pub open spec fn shaped_like<G>(network: Seq<Seq<(G, Seq<G>)>>, topology: Seq<LayerTopology>) -> bool {
    &&& network.len() + 1 == topology.len()
    &&& forall|l: int| 0 <= l < network.len() ==> (#[trigger] network[l]).len() == topology[l + 1].neurons
    &&& forall|l: int, k: int|
        0 <= l < network.len() && 0 <= k < network[l].len() ==> (#[trigger] network[l][k]).1.len()
            == topology[l].neurons
}

/// The neuron whose genes start at `at`.
pub open spec fn decode_neuron<G>(genes: Seq<G>, at: int, inputs: int) -> (G, Seq<G>) {
    (genes[at], genes.subrange(at + 1, at + 1 + inputs))
}

/// The `count` neurons, each with `inputs` weights, whose genes start at `at`.
pub open spec fn decode_layer<G>(genes: Seq<G>, at: int, inputs: int, count: nat) -> Seq<(G, Seq<G>)> {
    Seq::new(count, |k: int| decode_neuron(genes, at + k * (inputs + 1), inputs))
}

/// The network of the given topology read from the front of `genes`.
pub open spec fn decode<G>(topology: Seq<LayerTopology>, genes: Seq<G>) -> Seq<Seq<(G, Seq<G>)>> {
    if topology.len() == 0 {
        Seq::empty()
    } else {
        Seq::new(
            (topology.len() - 1) as nat,
            |l: int|
                decode_layer(
                    genes,
                    layer_offset(topology, l) as int,
                    topology[l].neurons as int,
                    topology[l + 1].neurons as nat,
                ),
        )
    }
}

proof fn lemma_layer_genes_len<G>(layer: Seq<(G, Seq<G>)>, inputs: nat)
    requires
        forall|k: int| 0 <= k < layer.len() ==> (#[trigger] layer[k]).1.len() == inputs,
    ensures
        layer_genes(layer).len() == layer.len() * (inputs + 1),
    decreases layer.len(),
{
    if layer.len() > 0 {
        let init = layer.drop_last();
        assert forall|k: int| 0 <= k < init.len() implies (#[trigger] init[k]).1.len() == inputs by {
            assert(init[k] == layer[k]);
        }
        lemma_layer_genes_len(init, inputs);
        let n = layer.len();
        assert((n - 1) * (inputs + 1) + (inputs + 1) == n * (inputs + 1)) by (nonlinear_arith);
    }
}

proof fn lemma_layer_round_trip<G>(layer: Seq<(G, Seq<G>)>, inputs: nat, genes: Seq<G>, at: int)
    requires
        forall|k: int| 0 <= k < layer.len() ==> (#[trigger] layer[k]).1.len() == inputs,
        0 <= at,
        at + layer.len() * (inputs + 1) <= genes.len(),
        genes.subrange(at, at + layer.len() * (inputs + 1)) == layer_genes(layer),
    ensures
        decode_layer(genes, at, inputs as int, layer.len()) == layer,
    decreases layer.len(),
{
    let n = layer.len();
    if n == 0 {
        assert(decode_layer(genes, at, inputs as int, 0) =~= layer);
    } else {
        let init = layer.drop_last();
        let last = layer.last();
        let m = (n - 1) * (inputs + 1);
        assert(m + (inputs + 1) == n * (inputs + 1)) by (nonlinear_arith)
            requires
                m == (n - 1) * (inputs + 1),
        ;
        assert forall|k: int| 0 <= k < init.len() implies (#[trigger] init[k]).1.len() == inputs by {
            assert(init[k] == layer[k]);
        }
        lemma_layer_genes_len(init, inputs);
        let whole = genes.subrange(at, at + n * (inputs + 1));
        assert(whole == layer_genes(init) + neuron_genes(last));
        assert(genes.subrange(at, at + m) =~= whole.subrange(0, m));
        assert(whole.subrange(0, m) =~= layer_genes(init));
        lemma_layer_round_trip(init, inputs, genes, at);
        let decoded = decode_layer(genes, at, inputs as int, n);
        assert(genes[at + m] == whole[m]);
        assert(genes.subrange(at + m + 1, at + m + 1 + inputs) =~= last.1) by {
            assert forall|j: int| 0 <= j < inputs implies genes.subrange(at + m + 1, at + m + 1 + inputs)[j]
                == last.1[j] by {
                assert(genes[at + m + 1 + j] == whole[m + 1 + j]);
            }
        }
        assert(decoded[n - 1] == last);
        assert forall|k: int| 0 <= k < n - 1 implies decoded[k] == layer[k] by {
            assert(decoded[k] == decode_layer(genes, at, inputs as int, (n - 1) as nat)[k]);
        }
        assert(decoded =~= layer);
    }
}

proof fn lemma_network_genes_layout<G>(network: Seq<Seq<(G, Seq<G>)>>, topology: Seq<LayerTopology>)
    requires
        network.len() < topology.len(),
        forall|l: int| 0 <= l < network.len() ==> (#[trigger] network[l]).len() == topology[l + 1].neurons,
        forall|l: int, k: int|
            0 <= l < network.len() && 0 <= k < network[l].len() ==> (#[trigger] network[l][k]).1.len()
                == topology[l].neurons,
    ensures
        network_genes(network).len() == layer_offset(topology, network.len() as int),
        forall|l: int|
            0 <= l < network.len() ==> network_genes(network).subrange(
                layer_offset(topology, l) as int,
                layer_offset(topology, l + 1) as int,
            ) == layer_genes(#[trigger] network[l]),
    decreases network.len(),
{
    let n = network.len() as int;
    if n > 0 {
        let init = network.drop_last();
        assert forall|l: int| 0 <= l < init.len() implies (#[trigger] init[l]).len() == topology[l + 1].neurons by {
            assert(init[l] == network[l]);
        }
        assert forall|l: int, k: int| 0 <= l < init.len() && 0 <= k < init[l].len() implies (#[trigger] init[l][k]).1.len()
            == topology[l].neurons by {
            assert(init[l] == network[l]);
        }
        lemma_network_genes_layout(init, topology);
        let last = network.last();
        assert forall|k: int| 0 <= k < last.len() implies (#[trigger] last[k]).1.len() == topology[n - 1].neurons by {
            assert(network[n - 1][k] == last[k]);
        }
        lemma_layer_genes_len(last, topology[n - 1].neurons as nat);
        let all = network_genes(network);
        assert(all == network_genes(init) + layer_genes(last));
        assert forall|l: int| 0 <= l < n implies all.subrange(
            layer_offset(topology, l) as int,
            layer_offset(topology, l + 1) as int,
        ) == layer_genes(#[trigger] network[l]) by {
            if l < n - 1 {
                assert(init[l] == network[l]);
                lemma_layer_offset_monotone(topology, l + 1, n - 1);
                assert(all.subrange(layer_offset(topology, l) as int, layer_offset(topology, l + 1) as int)
                    =~= network_genes(init).subrange(
                    layer_offset(topology, l) as int,
                    layer_offset(topology, l + 1) as int,
                ));
            } else {
                assert(all.subrange(layer_offset(topology, l) as int, layer_offset(topology, l + 1) as int)
                    =~= layer_genes(last));
            }
        }
    }
}

proof fn lemma_layer_offset_monotone(topology: Seq<LayerTopology>, a: int, b: int)
    requires
        0 <= a <= b,
    ensures
        layer_offset(topology, a) <= layer_offset(topology, b),
    decreases b - a,
{
    if a < b {
        lemma_layer_offset_monotone(topology, a, b - 1);
        assert(topology[b].neurons * (topology[b - 1].neurons + 1) >= 0) by (nonlinear_arith);
    }
}

/// Decoding the genes of a network with the topology it has gives the network
/// back: `from_weights(topology, weights())` rebuilds the same neurons, hence
/// the same outputs on every input.
pub proof fn lemma_weights_round_trip<G>(network: Seq<Seq<(G, Seq<G>)>>, topology: Seq<LayerTopology>)
    requires
        shaped_like(network, topology),
    ensures
        network_genes(network).len() == required_genes(topology),
        decode(topology, network_genes(network)) == network,
{
    lemma_network_genes_layout(network, topology);
    let genes = network_genes(network);
    let decoded = decode(topology, genes);
    assert forall|l: int| 0 <= l < network.len() implies decoded[l] == network[l] by {
        let layer = network[l];
        let at = layer_offset(topology, l) as int;
        let inputs = topology[l].neurons as nat;
        assert forall|k: int| 0 <= k < layer.len() implies (#[trigger] layer[k]).1.len() == inputs by {
            assert(network[l][k] == layer[k]);
        }
        lemma_layer_genes_len(layer, inputs);
        lemma_layer_offset_monotone(topology, l + 1, network.len() as int);
        assert(layer_offset(topology, l + 1) == at + layer.len() * (inputs + 1));
        lemma_layer_round_trip(layer, inputs, genes, at);
    }
    assert(decoded =~= network);
}

proof fn lemma_decode_shaped<G>(topology: Seq<LayerTopology>, genes: Seq<G>)
    requires
        topology.len() > 0,
        genes.len() >= required_genes(topology),
    ensures
        shaped_like(decode(topology, genes), topology),
{
    let net = decode(topology, genes);
    let last = topology.len() - 1;
    assert forall|l: int, k: int| 0 <= l < net.len() && 0 <= k < net[l].len() implies (#[trigger] net[l][k]).1.len()
        == topology[l].neurons by {
        let inputs = topology[l].neurons as int;
        let count = topology[l + 1].neurons as int;
        lemma_layer_offset_monotone(topology, l + 1, last);
        assert((k + 1) * (inputs + 1) <= count * (inputs + 1)) by (nonlinear_arith)
            requires
                k < count,
                inputs >= 0,
        ;
        assert(k * (inputs + 1) + inputs + 1 == (k + 1) * (inputs + 1)) by (nonlinear_arith);
    }
}

/// The number of genes of the topology, or `None` where it exceeds `usize::MAX`.
fn required_weights(layers: &[LayerTopology]) -> (r: Option<usize>)
    requires
        layers@.len() > 0,
    ensures
        r matches Some(n) ==> n == required_genes(layers@),
        r is None ==> required_genes(layers@) > usize::MAX,
{
    let ghost t = layers@;
    let ghost last = t.len() - 1;
    let mut total: usize = 0;
    let mut l: usize = 1;
    while l < layers.len()
        invariant
            t == layers@,
            last == t.len() - 1,
            1 <= l <= t.len(),
            total == layer_offset(t, l - 1),
        decreases t.len() - l,
    {
        let count = layers[l].neurons;
        let inputs = layers[l - 1].neurons;
        proof {
            lemma_layer_offset_monotone(t, l as int, last);
        }
        let mut per: usize = 0;
        if count != 0 {
            match inputs.checked_add(1) {
                None => {
                    assert(count * (inputs + 1) >= inputs + 1) by (nonlinear_arith)
                        requires
                            count >= 1,
                    ;
                    return None;
                },
                Some(width) => match count.checked_mul(width) {
                    None => {
                        return None;
                    },
                    Some(p) => {
                        per = p;
                    },
                },
            }
        }
        assert(per == (count as nat) * (inputs as nat + 1)) by (nonlinear_arith)
            requires
                count == 0 ==> per == 0,
                count != 0 ==> per == count * (inputs + 1),
        ;
        assert(layer_offset(t, l as int) == total + per);
        match total.checked_add(per) {
            None => {
                return None;
            },
            Some(sum) => {
                total = sum;
            },
        }
        l = l + 1;
    }
    Some(total)
}

impl<G> Neuron<G> {
    pub fn bias(&self) -> (r: &G)
        ensures
            *r == self@.0,
    {
        &self.bias
    }

    pub fn get_weights(&self) -> (r: &[G])
        ensures
            r@ == self@.1,
    {
        self.weights.as_slice()
    }
}

impl<G> Layer<G> {
    pub fn get_neurons(&self) -> (r: &[Neuron<G>])
        ensures
            r@.len() == self@.len(),
            forall|k: int| 0 <= k < r@.len() ==> (#[trigger] r@[k])@ == self@[k],
    {
        self.neurons.as_slice()
    }
}

impl<G> NeuralNetwork<G> {
    pub fn get_layers(&self) -> (r: &[Layer<G>])
        ensures
            r@.len() == self@.len(),
            forall|l: int| 0 <= l < r@.len() ==> (#[trigger] r@[l])@ == self@[l],
    {
        self.layers.as_slice()
    }

    /// How many genes a network of this topology is made of. A network needs
    /// an input layer and at least one layer of neurons.
    pub fn gene_count(layers: &[LayerTopology]) -> (r: Result<usize, NetworkError>)
        ensures
            layers@.len() < 2 <==> r matches Err(NetworkError::TooFewLayers),
            (layers@.len() >= 2 && required_genes(layers@) > usize::MAX) <==> r matches Err(
                NetworkError::TooLarge,
            ),
            r matches Ok(n) ==> n == required_genes(layers@),
            !(r matches Err(NetworkError::DimensionMismatch)),
    {
        if layers.len() < 2 {
            return Err(NetworkError::TooFewLayers);
        }
        match required_weights(layers) {
            Some(n) => Ok(n),
            None => Err(NetworkError::TooLarge),
        }
    }
}

impl<G: Copy> NeuralNetwork<G> {
    /// The genes of the network: for every neuron, layer by layer, its bias
    /// and then its weights.
    pub fn weights(&self) -> (r: Vec<G>)
        ensures
            r@ == network_genes(self@),
    {
        let mut out: Vec<G> = Vec::new();
        let mut l: usize = 0;
        while l < self.layers.len()
            invariant
                l <= self@.len(),
                out@ == network_genes(self@.take(l as int)),
            decreases self@.len() - l,
        {
            let layer = &self.layers[l];
            let ghost base = network_genes(self@.take(l as int));
            let mut k: usize = 0;
            while k < layer.neurons.len()
                invariant
                    layer@ == self@[l as int],
                    k <= layer@.len(),
                    out@ == base + layer_genes(layer@.take(k as int)),
                decreases layer@.len() - k,
            {
                let neuron = &layer.neurons[k];
                let ghost before = out@;
                out.push(neuron.bias);
                let mut j: usize = 0;
                while j < neuron.weights.len()
                    invariant
                        j <= neuron@.1.len(),
                        out@ == before + seq![neuron@.0] + neuron@.1.take(j as int),
                    decreases neuron@.1.len() - j,
                {
                    out.push(neuron.weights[j]);
                    j = j + 1;
                    assert(neuron@.1.take(j as int) =~= neuron@.1.take(j - 1).push(neuron@.1[j - 1]));
                }
                assert(layer@.take(k + 1).drop_last() =~= layer@.take(k as int));
                assert(neuron@.1.take(j as int) =~= neuron@.1);
                k = k + 1;
            }
            assert(layer@.take(k as int) =~= layer@);
            assert(self@.take(l + 1).drop_last() =~= self@.take(l as int));
            l = l + 1;
        }
        assert(self@.take(l as int) =~= self@);
        out
    }

    /// Reads a network of the given topology from the front of `weights`, the
    /// inverse of [`NeuralNetwork::weights`]. Genes past those the topology
    /// needs are left unread.
    pub fn from_weights(layers: &[LayerTopology], weights: &[G]) -> (r: Result<Self, NetworkError>)
        ensures
            layers@.len() == 0 <==> r matches Err(NetworkError::TooFewLayers),
            (layers@.len() > 0 && weights@.len() < required_genes(layers@)) <==> r matches Err(
                NetworkError::DimensionMismatch,
            ),
            !(r matches Err(NetworkError::TooLarge)),
            r matches Ok(n) ==> n@ == decode(layers@, weights@) && shaped_like(n@, layers@),
    {
        if layers.len() == 0 {
            return Err(NetworkError::TooFewLayers);
        }
        let available = weights.len();
        let need = match required_weights(layers) {
            Some(n) => n,
            None => {
                return Err(NetworkError::DimensionMismatch);
            },
        };
        if available < need {
            return Err(NetworkError::DimensionMismatch);
        }
        let ghost t = layers@;
        let ghost w = weights@;
        let ghost last = t.len() - 1;
        let mut built: Vec<Layer<G>> = Vec::new();
        let mut read: usize = 0;
        let mut l: usize = 1;
        while l < layers.len()
            invariant
                t == layers@,
                w == weights@,
                last == t.len() - 1,
                need == required_genes(t),
                need <= w.len(),
                w.len() <= usize::MAX,
                1 <= l <= t.len(),
                built@.len() == l - 1,
                forall|i: int| 0 <= i < l - 1 ==> (#[trigger] built@[i])@ == decode(t, w)[i],
                read == layer_offset(t, l - 1),
            decreases t.len() - l,
        {
            let inputs = layers[l - 1].neurons;
            let count = layers[l].neurons;
            let ghost start = read as int;
            proof {
                lemma_layer_offset_monotone(t, l as int, last);
            }
            let mut neurons: Vec<Neuron<G>> = Vec::new();
            let mut k: usize = 0;
            while k < count
                invariant
                    w == weights@,
                    need <= w.len(),
                    w.len() <= usize::MAX,
                    start + count * (inputs + 1) <= need,
                    k <= count,
                    neurons@.len() == k,
                    read == start + k * (inputs + 1),
                    forall|i: int| 0 <= i < k ==> (#[trigger] neurons@[i])@ == decode_neuron(
                        w,
                        start + i * (inputs + 1),
                        inputs as int,
                    ),
                decreases count - k,
            {
                proof {
                    assert((k + 1) * (inputs + 1) <= count * (inputs + 1)) by (nonlinear_arith)
                        requires
                            k < count,
                    ;
                    assert(k * (inputs + 1) + inputs + 1 == (k + 1) * (inputs + 1)) by (nonlinear_arith);
                }
                let bias = weights[read];
                let mut ws: Vec<G> = Vec::new();
                let mut j: usize = 0;
                while j < inputs
                    invariant
                        w == weights@,
                        read + 1 + inputs <= w.len(),
                        w.len() <= usize::MAX,
                        j <= inputs,
                        ws@ == w.subrange(read + 1, read + 1 + j),
                    decreases inputs - j,
                {
                    ws.push(weights[read + 1 + j]);
                    j = j + 1;
                    assert(ws@ =~= w.subrange(read + 1, read + 1 + j));
                }
                let neuron = Neuron { bias, weights: ws };
                assert(neuron@ == decode_neuron(w, start + k * (inputs + 1), inputs as int));
                neurons.push(neuron);
                read = read + 1 + inputs;
                k = k + 1;
            }
            let layer = Layer { neurons };
            assert(layer@ =~= decode(t, w)[l - 1]);
            built.push(layer);
            l = l + 1;
        }
        let network = NeuralNetwork { layers: built };
        assert(network@ =~= decode(t, w));
        proof {
            lemma_decode_shaped(t, w);
        }
        Ok(network)
    }
}

} // verus!
