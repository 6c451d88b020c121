//! The feedforward network: an ordered stack of layers, pure forward
//! propagation, and the flat gene encode/decode that couples a network
//! to a chromosome.
//!
//! The serialization contract: genes are listed bias first, then the
//! weights, neuron by neuron within a layer, layer by layer.  `weights`
//! produces that order and `from_weights` consumes it, and
//! `lemma_genes_determine_network` proves the order lossless: two
//! networks of one topology with equal genes are equal.

use vstd::prelude::*;
use crate::neuron::{NeuronV, neuron_genes_s, ints_s};
use crate::layer::{
    Layer, LayerV, layer_v, layer_genes_s, layer_wf_s, layer_out_s, lemma_layer_genes_push,
    lemma_layer_genes_len,
};
use vstd::arithmetic::mul::lemma_mul_nonnegative;

verus! {

/// One entry of a topology: how many neurons the layer holds.
#[derive(Debug)]
pub struct LayerTopology {
    pub neurons: usize,
}

/// Why a decode failed: the flat gene sequence was shorter or longer
/// than the topology requires.
#[derive(Debug, Clone, Copy, PartialEq, Eq, Structural)]
pub enum NetworkError {
    NotEnoughWeights,
    TooManyWeights,
}

#[derive(Debug)]
pub struct Network {
    pub layers: Vec<Layer>,
}

/// What a `Network` denotes: its layers' contents in order.
pub open spec fn net_v(n: Network) -> Seq<LayerV> {
    n.layers@.map_values(|l: Layer| layer_v(l))
}

/// The genes of a network: each layer's genes, layer by layer.
pub open spec fn net_genes_s(ls: Seq<LayerV>) -> Seq<int>
    decreases ls.len(),
{
    if ls.len() == 0 {
        Seq::empty()
    } else {
        layer_genes_s(ls[0]) + net_genes_s(ls.drop_first())
    }
}

/// The chained width contract: the first layer reads `in_size` inputs,
/// and each layer's neuron count is the next layer's input width.
pub open spec fn net_wf_s(ls: Seq<LayerV>, in_size: int) -> bool
    decreases ls.len(),
{
    if ls.len() == 0 {
        true
    } else {
        layer_wf_s(ls[0], in_size) && net_wf_s(ls.drop_first(), ls[0].len() as int)
    }
}

/// The integer view of a topology.
pub open spec fn topo_v(t: Seq<LayerTopology>) -> Seq<int> {
    t.map_values(|x: LayerTopology| x.neurons as int)
}

/// The layers realize the topology: layer `i` turns `topo[i]` inputs
/// into `topo[i + 1]` outputs.
pub open spec fn matches_topology_s(ls: Seq<LayerV>, topo: Seq<int>) -> bool {
    &&& ls.len() + 1 == topo.len()
    &&& forall|i: int|
        0 <= i < ls.len() ==> (#[trigger] ls[i]).len() == topo[i + 1] && layer_wf_s(ls[i], topo[i])
}

/// Genes required by the first `k` layer transitions of a topology.
pub open spec fn topo_weights_prefix_s(topo: Seq<int>, k: int) -> int
    decreases k,
{
    if k <= 0 {
        0
    } else {
        topo_weights_prefix_s(topo, k - 1) + topo[k] * (1 + topo[k - 1])
    }
}

/// Total gene count a topology requires: one bias plus one weight per
/// input for every neuron.
pub open spec fn topo_weights_s(topo: Seq<int>) -> int {
    topo_weights_prefix_s(topo, topo.len() - 1)
}

/// Output of a stack of layers fed with `ins`.
pub open spec fn net_out_s(ls: Seq<LayerV>, ins: Seq<int>) -> Seq<int>
    decreases ls.len(),
{
    if ls.len() == 0 {
        ins
    } else {
        net_out_s(ls.drop_first(), layer_out_s(ls[0], ins))
    }
}

/// A topology match gives the chained width contract.
pub proof fn lemma_matches_topology_wf(ls: Seq<LayerV>, topo: Seq<int>)
    requires
        matches_topology_s(ls, topo),
    ensures
        ls.len() > 0 ==> net_wf_s(ls, topo[0]),
    decreases ls.len(),
{
    if ls.len() > 0 {
        if ls.len() > 1 {
            assert(matches_topology_s(ls.drop_first(), topo.drop_first())) by {
                assert(forall|i: int|
                    0 <= i < ls.drop_first().len() ==> #[trigger] ls.drop_first()[i] == ls[i + 1]);
            };
            lemma_matches_topology_wf(ls.drop_first(), topo.drop_first());
        }
        assert(net_wf_s(ls.drop_first(), ls[0].len() as int));
    }
}

/// Appending a layer appends its genes.
pub proof fn lemma_net_genes_push(ls: Seq<LayerV>, lv: LayerV)
    ensures
        net_genes_s(ls.push(lv)) == net_genes_s(ls) + layer_genes_s(lv),
    decreases ls.len(),
{
    if ls.len() == 0 {
        assert(ls.push(lv).drop_first() =~= ls);
        assert(layer_genes_s(lv) + net_genes_s(ls) =~= net_genes_s(ls) + layer_genes_s(lv));
    } else {
        lemma_net_genes_push(ls.drop_first(), lv);
        assert(ls.push(lv).drop_first() =~= ls.drop_first().push(lv));
        assert(layer_genes_s(ls[0]) + (net_genes_s(ls.drop_first()) + layer_genes_s(lv))
            =~= (layer_genes_s(ls[0]) + net_genes_s(ls.drop_first())) + layer_genes_s(lv));
    }
}

/// With non-negative layer sizes the gene requirement grows with `k`.
pub proof fn lemma_topo_weights_prefix_mono(topo: Seq<int>, k1: int, k2: int)
    requires
        k1 <= k2,
        forall|i: int| 0 <= i < topo.len() ==> topo[i] >= 0,
        k2 <= topo.len() - 1,
    ensures
        topo_weights_prefix_s(topo, k1) <= topo_weights_prefix_s(topo, k2),
    decreases k2 - k1,
{
    if k1 < k2 {
        lemma_topo_weights_prefix_mono(topo, k1, k2 - 1);
        if k2 >= 1 {
            lemma_mul_nonnegative(topo[k2], 1 + topo[k2 - 1]);
        }
    }
}

/// The prefix sums of a topology shift under dropping its first entry.
proof fn lemma_topo_prefix_shift(topo: Seq<int>, j: int)
    requires
        0 <= j,
        j + 1 <= topo.len() - 1,
    ensures
        topo_weights_prefix_s(topo.drop_first(), j) + topo[1] * (1 + topo[0])
            == topo_weights_prefix_s(topo, j + 1),
    decreases j,
{
    if j > 0 {
        lemma_topo_prefix_shift(topo, j - 1);
        assert(topo.drop_first()[j] == topo[j + 1]);
        assert(topo.drop_first()[j - 1] == topo[j]);
        assert(topo_weights_prefix_s(topo.drop_first(), j) == topo_weights_prefix_s(
            topo.drop_first(),
            j - 1,
        ) + topo.drop_first()[j] * (1 + topo.drop_first()[j - 1]));
        assert(topo_weights_prefix_s(topo, j + 1) == topo_weights_prefix_s(topo, j) + topo[j + 1]
            * (1 + topo[j]));
    } else {
        assert(topo_weights_prefix_s(topo.drop_first(), 0) == 0);
        assert(topo_weights_prefix_s(topo, 0) == 0);
        assert(topo_weights_prefix_s(topo, 1) == topo_weights_prefix_s(topo, 0) + topo[1] * (1
            + topo[0]));
    }
}

/// A network matching a topology holds exactly the gene count that the
/// topology requires.
pub proof fn lemma_net_genes_len(ls: Seq<LayerV>, topo: Seq<int>)
    requires
        matches_topology_s(ls, topo),
        forall|i: int| 0 <= i < topo.len() ==> #[trigger] topo[i] >= 0,
    ensures
        net_genes_s(ls).len() == topo_weights_s(topo),
    decreases ls.len(),
{
    if ls.len() == 0 {
    } else {
        lemma_layer_genes_len(ls[0], topo[0]);
        assert(matches_topology_s(ls.drop_first(), topo.drop_first())) by {
            assert(forall|i: int|
                0 <= i < ls.drop_first().len() ==> #[trigger] ls.drop_first()[i] == ls[i + 1]);
        };
        lemma_net_genes_len(ls.drop_first(), topo.drop_first());
        lemma_topo_prefix_shift(topo, topo.len() - 2);
    }
}

/// A non-empty stack's output has one entry per neuron of its last
/// layer.
pub proof fn lemma_net_out_len(ls: Seq<LayerV>, ins: Seq<int>)
    requires
        ls.len() > 0,
    ensures
        net_out_s(ls, ins).len() == ls.last().len(),
    decreases ls.len(),
{
    if ls.len() == 1 {
        assert(ls.drop_first().len() == 0);
        assert(net_out_s(ls, ins) == net_out_s(ls.drop_first(), layer_out_s(ls[0], ins)));
        assert(net_out_s(ls.drop_first(), layer_out_s(ls[0], ins)) == layer_out_s(ls[0], ins));
        assert(layer_out_s(ls[0], ins).len() == ls[0].len());
        assert(ls.last() == ls[0]);
    } else {
        lemma_net_out_len(ls.drop_first(), layer_out_s(ls[0], ins));
        assert(net_out_s(ls, ins) == net_out_s(ls.drop_first(), layer_out_s(ls[0], ins)));
        assert(ls.drop_first().last() == ls.last());
    }
}

/// Splitting a concatenation at matching lengths splits both sides.
proof fn lemma_concat_split(a1: Seq<int>, b1: Seq<int>, a2: Seq<int>, b2: Seq<int>)
    requires
        a1 + b1 == a2 + b2,
        a1.len() == a2.len(),
    ensures
        a1 == a2,
        b1 == b2,
{
    assert(a1 =~= (a1 + b1).subrange(0, a1.len() as int));
    assert(a2 =~= (a2 + b2).subrange(0, a2.len() as int));
    assert(b1 =~= (a1 + b1).subrange(a1.len() as int, (a1 + b1).len() as int));
    assert(b2 =~= (a2 + b2).subrange(a2.len() as int, (a2 + b2).len() as int));
}

/// A layer of a given shape is determined by its genes.
proof fn lemma_layer_genes_injective(l1: LayerV, l2: LayerV, in_size: int)
    requires
        layer_wf_s(l1, in_size),
        layer_wf_s(l2, in_size),
        l1.len() == l2.len(),
        in_size >= 0,
        layer_genes_s(l1) == layer_genes_s(l2),
    ensures
        l1 == l2,
    decreases l1.len(),
{
    if l1.len() == 0 {
        assert(l1 =~= l2);
    } else {
        assert(neuron_genes_s(l1[0]).len() == 1 + in_size);
        assert(neuron_genes_s(l2[0]).len() == 1 + in_size);
        lemma_concat_split(
            neuron_genes_s(l1[0]),
            layer_genes_s(l1.drop_first()),
            neuron_genes_s(l2[0]),
            layer_genes_s(l2.drop_first()),
        );
        assert(l1[0].0 == neuron_genes_s(l1[0])[0]);
        assert(l1[0].1 =~= neuron_genes_s(l1[0]).subrange(1, 1 + in_size));
        assert(l2[0].1 =~= neuron_genes_s(l2[0]).subrange(1, 1 + in_size));
        assert(l1[0].1 == l2[0].1);
        assert(l1[0] == l2[0]);
        assert(layer_wf_s(l1.drop_first(), in_size));
        assert(layer_wf_s(l2.drop_first(), in_size));
        lemma_layer_genes_injective(l1.drop_first(), l2.drop_first(), in_size);
        assert forall|k: int| 0 <= k < l1.len() implies #[trigger] l1[k] == l2[k] by {
            if k >= 1 {
                assert(l1[k] == l1.drop_first()[k - 1]);
                assert(l2[k] == l2.drop_first()[k - 1]);
            }
        };
        assert(l1 =~= l2);
    }
}

/// The round-trip law.  The gene order (bias first, then weights, neuron
/// by neuron, layer by layer) is lossless: two networks realizing one
/// topology with equal gene sequences are the same network, so decoding
/// a network's encoded weights reproduces its propagate behaviour on
/// every input.
pub proof fn lemma_weights_roundtrip(n1: Seq<LayerV>, n2: Seq<LayerV>, topo: Seq<int>, ins: Seq<int>)
    requires
        forall|i: int| 0 <= i < topo.len() ==> topo[i] >= 0,
        matches_topology_s(n1, topo),
        matches_topology_s(n2, topo),
        net_genes_s(n1) == net_genes_s(n2),
    ensures
        n1 == n2,
        net_out_s(n1, ins) == net_out_s(n2, ins),
    decreases n1.len(),
{
    if n1.len() == 0 {
        assert(n1 =~= n2);
    } else {
        lemma_layer_genes_len(n1[0], topo[0]);
        lemma_layer_genes_len(n2[0], topo[0]);
        lemma_concat_split(
            layer_genes_s(n1[0]),
            net_genes_s(n1.drop_first()),
            layer_genes_s(n2[0]),
            net_genes_s(n2.drop_first()),
        );
        lemma_layer_genes_injective(n1[0], n2[0], topo[0]);
        assert(matches_topology_s(n1.drop_first(), topo.drop_first())) by {
            assert(forall|i: int|
                0 <= i < n1.drop_first().len() ==> #[trigger] n1.drop_first()[i] == n1[i + 1]);
        };
        assert(matches_topology_s(n2.drop_first(), topo.drop_first())) by {
            assert(forall|i: int|
                0 <= i < n2.drop_first().len() ==> #[trigger] n2.drop_first()[i] == n2[i + 1]);
        };
        lemma_weights_roundtrip(n1.drop_first(), n2.drop_first(), topo.drop_first(), ins);
        assert forall|k: int| 0 <= k < n1.len() implies #[trigger] n1[k] == n2[k] by {
            if k >= 1 {
                assert(n1[k] == n1.drop_first()[k - 1]);
                assert(n2[k] == n2.drop_first()[k - 1]);
            }
        };
        assert(n1 =~= n2);
    }
}

/// Every output of a non-empty stack is a rectified saturating sum:
/// non-negative and at most the saturation bound.
pub proof fn lemma_net_out_bounded(ls: Seq<LayerV>, ins: Seq<int>)
    requires
        ls.len() > 0,
    ensures
        forall|k: int|
            0 <= k < net_out_s(ls, ins).len() ==> 0 <= #[trigger] net_out_s(ls, ins)[k]
                <= 0x100_0000_0000,
    decreases ls.len(),
{
    if ls.len() == 1 {
        assert(ls.drop_first().len() == 0);
        assert(net_out_s(ls, ins) == net_out_s(ls.drop_first(), layer_out_s(ls[0], ins)));
        assert(net_out_s(ls.drop_first(), layer_out_s(ls[0], ins)) == layer_out_s(ls[0], ins));
        assert forall|k: int| 0 <= k < net_out_s(ls, ins).len() implies 0 <= #[trigger] net_out_s(
            ls,
            ins,
        )[k] <= 0x100_0000_0000 by {
            assert(net_out_s(ls, ins)[k] == crate::neuron::neuron_out_s(ls[0][k], ins));
        };
    } else {
        lemma_net_out_bounded(ls.drop_first(), layer_out_s(ls[0], ins));
        assert(net_out_s(ls, ins) == net_out_s(ls.drop_first(), layer_out_s(ls[0], ins)));
    }
}

/// Propagation determinism: a network's outputs are a pure function of
/// its genes and topology, so two networks decoded from one chromosome
/// under one topology produce identical outputs on every input.
pub proof fn lemma_propagation_deterministic(
    n1: Seq<LayerV>,
    n2: Seq<LayerV>,
    topo: Seq<int>,
    genes: Seq<int>,
    ins: Seq<int>,
)
    requires
        forall|i: int| 0 <= i < topo.len() ==> topo[i] >= 0,
        matches_topology_s(n1, topo),
        matches_topology_s(n2, topo),
        net_genes_s(n1) == genes,
        net_genes_s(n2) == genes,
    ensures
        net_out_s(n1, ins) == net_out_s(n2, ins),
{
    lemma_weights_roundtrip(n1, n2, topo, ins);
}

impl Network {
    /// Decode a network from a flat gene sequence.  Succeeds exactly
    /// when the sequence holds exactly the genes the topology requires;
    /// a short sequence is `NotEnoughWeights`, unconsumed trailing genes
    /// are `TooManyWeights`.
    pub fn from_weights(topology: &Vec<LayerTopology>, weights: &Vec<i64>) -> (r: Result<
        Network,
        NetworkError,
    >)
        requires
            topology@.len() >= 2,
        ensures
            match r {
                Ok(n) => {
                    &&& weights@.len() == topo_weights_s(topo_v(topology@))
                    &&& matches_topology_s(net_v(n), topo_v(topology@))
                    &&& net_genes_s(net_v(n)) == ints_s(weights@)
                },
                Err(NetworkError::NotEnoughWeights) => weights@.len() < topo_weights_s(
                    topo_v(topology@),
                ),
                Err(NetworkError::TooManyWeights) => weights@.len() > topo_weights_s(
                    topo_v(topology@),
                ),
            },
    {
        let ghost tv = topo_v(topology@);
        let mut layers: Vec<Layer> = Vec::new();
        let mut cursor: usize = 0;
        let mut li: usize = 0;
        while li < topology.len() - 1
            invariant
                topology@.len() >= 2,
                li <= topology@.len() - 1,
                tv == topo_v(topology@),
                cursor <= weights@.len(),
                cursor == topo_weights_prefix_s(tv, li as int),
                layers@.len() == li,
                forall|i: int|
                    0 <= i < li ==> (#[trigger] net_v(Network { layers })[i]).len() == tv[i + 1]
                        && layer_wf_s(net_v(Network { layers })[i], tv[i]),
                net_genes_s(net_v(Network { layers })) == ints_s(weights@).subrange(
                    0,
                    cursor as int,
                ),
            decreases topology@.len() - li,
        {
            let ghost pre_cursor = cursor;
            let ghost pre_ls = net_v(Network { layers });
            let input_size = topology[li].neurons;
            let output_size = topology[li + 1].neurons;
            match Layer::from_weights(input_size, output_size, weights, &mut cursor) {
                Ok(l) => {
                    proof {
                        lemma_net_genes_push(pre_ls, layer_v(l));
                    }
                    layers.push(l);
                    proof {
                        assert(net_v(Network { layers }) =~= pre_ls.push(layer_v(l)));
                        assert(net_genes_s(net_v(Network { layers })) =~= ints_s(
                            weights@,
                        ).subrange(0, cursor as int));
                    }
                },
                Err(_) => {
                    proof {
                        assert(forall|i: int| 0 <= i < tv.len() ==> tv[i] >= 0);
                        lemma_topo_weights_prefix_mono(tv, li as int + 1, tv.len() - 1);
                    }
                    return Err(NetworkError::NotEnoughWeights);
                },
            }
            li = li + 1;
        }
        if cursor < weights.len() {
            return Err(NetworkError::TooManyWeights);
        }
        proof {
            assert(net_genes_s(net_v(Network { layers })) =~= ints_s(weights@));
        }
        Ok(Network { layers })
    }

    /// Encode the genes in the order `from_weights` consumes: bias then
    /// weights, neuron by neuron, layer by layer.
    pub fn weights(&self) -> (r: Vec<i64>)
        ensures
            ints_s(r@) == net_genes_s(net_v(*self)),
    {
        let mut out: Vec<i64> = Vec::new();
        let mut li: usize = 0;
        while li < self.layers.len()
            invariant
                li <= self.layers@.len(),
                ints_s(out@) == net_genes_s(net_v(*self).take(li as int)),
            decreases self.layers@.len() - li,
        {
            let ghost pre_genes = ints_s(out@);
            let layer = &self.layers[li];
            let mut ni: usize = 0;
            while ni < layer.neurons.len()
                invariant
                    ni <= layer.neurons@.len(),
                    layer == &self.layers@[li as int],
                    li < self.layers@.len(),
                    pre_genes == net_genes_s(net_v(*self).take(li as int)),
                    ints_s(out@) == pre_genes + layer_genes_s(layer_v(*layer).take(ni as int)),
                decreases layer.neurons@.len() - ni,
            {
                let ghost pre_layer_genes = layer_genes_s(layer_v(*layer).take(ni as int));
                let neuron = &layer.neurons[ni];
                out.push(neuron.bias);
                proof {
                    assert(ints_s(out@) =~= pre_genes + pre_layer_genes + seq![
                        neuron.bias as int,
                    ] + ints_s(neuron.weights@).take(0));
                }
                let mut wi: usize = 0;
                while wi < neuron.weights.len()
                    invariant
                        wi <= neuron.weights@.len(),
                        neuron == &layer.neurons@[ni as int],
                        layer == &self.layers@[li as int],
                        ni < layer.neurons@.len(),
                        li < self.layers@.len(),
                        ints_s(out@) == pre_genes + pre_layer_genes + seq![
                            neuron.bias as int,
                        ] + ints_s(neuron.weights@).take(wi as int),
                    decreases neuron.weights@.len() - wi,
                {
                    let ghost pre_push = out@;
                    let w: i64 = neuron.weights[wi];
                    out.push(w);
                    proof {
                        assert(ints_s(out@) =~= ints_s(pre_push).push(w as int));
                        assert(ints_s(neuron.weights@).take(wi as int + 1) =~= ints_s(
                            neuron.weights@,
                        ).take(wi as int).push(w as int));
                        assert((pre_genes + pre_layer_genes + seq![neuron.bias as int] + ints_s(
                            neuron.weights@,
                        ).take(wi as int)).push(w as int) =~= pre_genes + pre_layer_genes + seq![
                            neuron.bias as int,
                        ] + ints_s(neuron.weights@).take(wi as int + 1));
                        assert(ints_s(out@) =~= pre_genes + pre_layer_genes + seq![
                            neuron.bias as int,
                        ] + ints_s(neuron.weights@).take(wi as int + 1));
                    }
                    wi = wi + 1;
                }
                proof {
                    lemma_layer_genes_push(layer_v(*layer).take(ni as int), layer_v(*layer)[ni as int]);
                    assert(layer_v(*layer).take(ni as int + 1) =~= layer_v(*layer).take(
                        ni as int,
                    ).push(layer_v(*layer)[ni as int]));
                    assert(neuron_genes_s(layer_v(*layer)[ni as int]) =~= seq![
                        neuron.bias as int,
                    ] + ints_s(neuron.weights@).take(neuron.weights@.len() as int));
                    assert(ints_s(out@) =~= pre_genes + layer_genes_s(layer_v(*layer).take(
                        ni as int + 1,
                    )));
                }
                ni = ni + 1;
            }
            proof {
                lemma_net_genes_push(net_v(*self).take(li as int), layer_v(*layer));
                assert(net_v(*self).take(li as int + 1) =~= net_v(*self).take(li as int).push(
                    layer_v(*layer),
                ));
                assert(layer_v(*layer).take(layer.neurons@.len() as int) =~= layer_v(*layer));
                assert(ints_s(out@) =~= net_genes_s(net_v(*self).take(li as int + 1)));
            }
            li = li + 1;
        }
        proof {
            assert(net_v(*self).take(self.layers@.len() as int) =~= net_v(*self));
        }
        out
    }

    /// A fresh random network realizing the topology, every gene drawn
    /// from the generator: biases in [-1, 1], weights in [0, 1].
    pub fn random(rng: &mut rand::rngs::StdRng, topology: &Vec<LayerTopology>) -> (r: Network)
        requires
            topology@.len() >= 2,
        ensures
            matches_topology_s(net_v(r), topo_v(topology@)),
            forall|i: int, j: int|
                0 <= i < net_v(r).len() && 0 <= j < net_v(r)[i].len() ==> -65536 <= (
                #[trigger] net_v(r)[i][j]).0 <= 65536 && forall|k: int|
                    0 <= k < net_v(r)[i][j].1.len() ==> 0 <= #[trigger] net_v(r)[i][j].1[k]
                        <= 65536,
    {
        let ghost tv = topo_v(topology@);
        let mut layers: Vec<Layer> = Vec::new();
        let mut li: usize = 0;
        while li < topology.len() - 1
            invariant
                topology@.len() >= 2,
                li <= topology@.len() - 1,
                tv == topo_v(topology@),
                layers@.len() == li,
                forall|i: int|
                    0 <= i < li ==> (#[trigger] net_v(Network { layers })[i]).len() == tv[i + 1]
                        && layer_wf_s(net_v(Network { layers })[i], tv[i]),
                forall|i: int, j: int|
                    0 <= i < li && 0 <= j < net_v(Network { layers })[i].len() ==> -65536 <= (
                    #[trigger] net_v(Network { layers })[i][j]).0 <= 65536 && forall|k: int|
                        0 <= k < net_v(Network { layers })[i][j].1.len() ==> 0 <= #[trigger] net_v(
                            Network { layers },
                        )[i][j].1[k] <= 65536,
            decreases topology@.len() - li,
        {
            let ghost pre_ls = net_v(Network { layers });
            let input_size = topology[li].neurons;
            let output_size = topology[li + 1].neurons;
            let l = Layer::random(rng, input_size, output_size);
            layers.push(l);
            proof {
                assert(net_v(Network { layers }) =~= pre_ls.push(layer_v(l)));
            }
            li = li + 1;
        }
        Network { layers }
    }

    /// Pure forward inference: each layer's rectified outputs feed the
    /// next; the last layer's outputs are returned.
    pub fn propagate(&self, inputs: Vec<i64>) -> (r: Vec<i64>)
        requires
            net_wf_s(net_v(*self), inputs@.len() as int),
        ensures
            ints_s(r@) == net_out_s(net_v(*self), ints_s(inputs@)),
    {
        let ghost ins0 = ints_s(inputs@);
        let mut current: Vec<i64> = inputs;
        proof {
            assert(net_v(*self).skip(0) =~= net_v(*self));
        }
        let mut li: usize = 0;
        while li < self.layers.len()
            invariant
                li <= self.layers@.len(),
                net_wf_s(net_v(*self).skip(li as int), current@.len() as int),
                net_out_s(net_v(*self).skip(li as int), ints_s(current@)) == net_out_s(
                    net_v(*self),
                    ins0,
                ),
            decreases self.layers@.len() - li,
        {
            let ghost pre = net_v(*self).skip(li as int);
            proof {
                assert(pre[0] == net_v(*self)[li as int]);
                assert(pre.drop_first() =~= net_v(*self).skip(li as int + 1));
            }
            let next = self.layers[li].propagate(&current);
            current = next;
            li = li + 1;
        }
        proof {
            assert(net_v(*self).skip(self.layers@.len() as int) =~= Seq::<LayerV>::empty());
        }
        current
    }
}

} // verus!
