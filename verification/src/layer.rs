//! A layer: an ordered row of neurons sharing one input width.

use vstd::prelude::*;
use crate::neuron::{Neuron, NeuronV, neuron_v, neuron_genes_s, neuron_out_s, ints_s};
use crate::network::NetworkError;
use vstd::arithmetic::mul::lemma_mul_inequality;

verus! {

/// The mathematical content of a layer: its neurons' contents in order.
pub type LayerV = Seq<NeuronV>;

#[derive(Debug)]
pub struct Layer {
    pub neurons: Vec<Neuron>,
}

/// What a `Layer` denotes.
pub open spec fn layer_v(l: Layer) -> LayerV {
    l.neurons@.map_values(|n: Neuron| neuron_v(n))
}

/// The genes of a layer: each neuron's genes, neuron by neuron.
pub open spec fn layer_genes_s(lv: LayerV) -> Seq<int>
    decreases lv.len(),
{
    if lv.len() == 0 {
        Seq::empty()
    } else {
        neuron_genes_s(lv[0]) + layer_genes_s(lv.drop_first())
    }
}

/// Every neuron of the layer takes `in_size` inputs.
pub open spec fn layer_wf_s(lv: LayerV, in_size: int) -> bool {
    forall|i: int| 0 <= i < lv.len() ==> (#[trigger] lv[i]).1.len() == in_size
}

/// A layer's output: one rectified value per neuron.
pub open spec fn layer_out_s(lv: LayerV, ins: Seq<int>) -> Seq<int> {
    Seq::new(lv.len(), |i: int| neuron_out_s(lv[i], ins))
}

/// Appending a neuron appends its genes.
pub proof fn lemma_layer_genes_push(lv: LayerV, nv: NeuronV)
    ensures
        layer_genes_s(lv.push(nv)) == layer_genes_s(lv) + neuron_genes_s(nv),
    decreases lv.len(),
{
    if lv.len() == 0 {
        assert(lv.push(nv).drop_first() =~= lv);
        assert(layer_genes_s(lv.push(nv)) == neuron_genes_s(nv) + layer_genes_s(lv));
        assert(neuron_genes_s(nv) + layer_genes_s(lv) =~= layer_genes_s(lv) + neuron_genes_s(nv));
    } else {
        lemma_layer_genes_push(lv.drop_first(), nv);
        assert(lv.push(nv).drop_first() =~= lv.drop_first().push(nv));
        assert(layer_genes_s(lv.push(nv)) == neuron_genes_s(lv[0]) + layer_genes_s(
            lv.drop_first().push(nv),
        ));
        assert(neuron_genes_s(lv[0]) + (layer_genes_s(lv.drop_first()) + neuron_genes_s(nv))
            =~= (neuron_genes_s(lv[0]) + layer_genes_s(lv.drop_first())) + neuron_genes_s(nv));
    }
}

/// With a uniform input width, a layer's gene count is one bias plus
/// `in_size` weights per neuron.
pub proof fn lemma_layer_genes_len(lv: LayerV, in_size: int)
    requires
        layer_wf_s(lv, in_size),
        in_size >= 0,
    ensures
        layer_genes_s(lv).len() == lv.len() * (1 + in_size),
    decreases lv.len(),
{
    if lv.len() == 0 {
    } else {
        assert(layer_wf_s(lv.drop_first(), in_size));
        lemma_layer_genes_len(lv.drop_first(), in_size);
        assert(neuron_genes_s(lv[0]).len() == 1 + in_size);
        assert(lv.len() * (1 + in_size) == (lv.len() - 1) * (1 + in_size) + (1 + in_size))
            by (nonlinear_arith);
    }
}

impl Layer {
    /// Decode `output_size` neurons of `input_size` inputs each from the
    /// flat gene sequence at `*cursor`.
    #[verifier::loop_isolation(false)]
    pub fn from_weights(
        input_size: usize,
        output_size: usize,
        weights: &Vec<i64>,
        cursor: &mut usize,
    ) -> (r: Result<Layer, NetworkError>)
        requires
            *old(cursor) <= weights@.len(),
        ensures
            match r {
                Ok(l) => {
                    &&& *old(cursor) + output_size * (1 + input_size) <= weights@.len()
                    &&& *final(cursor) == *old(cursor) + output_size * (1 + input_size)
                    &&& layer_v(l).len() == output_size
                    &&& layer_wf_s(layer_v(l), input_size as int)
                    &&& layer_genes_s(layer_v(l)) == ints_s(weights@).subrange(
                        *old(cursor) as int,
                        *final(cursor) as int,
                    )
                },
                Err(e) => {
                    &&& e == NetworkError::NotEnoughWeights
                    &&& *old(cursor) + output_size * (1 + input_size) > weights@.len()
                    &&& *final(cursor) <= weights@.len()
                },
            },
    {
        let start: usize = *cursor;
        let mut neurons: Vec<Neuron> = Vec::new();
        let mut i: usize = 0;
        while i < output_size
            invariant
                i <= output_size,
                *cursor <= weights@.len(),
                *cursor == start + i * (1 + input_size),
                neurons@.len() == i,
                layer_wf_s(layer_v(Layer { neurons }), input_size as int),
                layer_genes_s(layer_v(Layer { neurons })) == ints_s(weights@).subrange(
                    start as int,
                    *cursor as int,
                ),
            decreases output_size - i,
        {
            let ghost pre_cursor = *cursor;
            let ghost pre_lv = layer_v(Layer { neurons });
            match Neuron::from_weights(input_size, weights, cursor) {
                Ok(n) => {
                    proof {
                        lemma_layer_genes_push(pre_lv, neuron_v(n));
                        assert((i + 1) * (1 + input_size) == i * (1 + input_size) + (1
                            + input_size)) by (nonlinear_arith);
                    }
                    neurons.push(n);
                    proof {
                        assert(layer_v(Layer { neurons }) =~= pre_lv.push(neuron_v(n)));
                        assert(layer_genes_s(layer_v(Layer { neurons })) =~= ints_s(
                            weights@,
                        ).subrange(start as int, *cursor as int));
                    }
                },
                Err(e) => {
                    proof {
                        lemma_mul_inequality(i as int + 1, output_size as int, 1 + input_size);
                        assert((i as int + 1) * (1 + input_size) == i * (1 + input_size) + (1
                            + input_size)) by (nonlinear_arith);
                        assert(start + output_size * (1 + input_size) > weights@.len());
                        assert(*old(cursor) == start);
                        assert(*old(cursor) + output_size * (1 + input_size) > weights@.len());
                    }
                    return Err(e);
                },
            }
            i = i + 1;
        }
        Ok(Layer { neurons })
    }

    /// A fresh random layer of `output_size` neurons.
    pub fn random(rng: &mut rand::rngs::StdRng, input_size: usize, output_size: usize) -> (r: Layer)
        ensures
            layer_v(r).len() == output_size,
            layer_wf_s(layer_v(r), input_size as int),
            forall|j: int|
                0 <= j < output_size ==> -65536 <= (#[trigger] layer_v(r)[j]).0 <= 65536
                    && forall|k: int|
                    0 <= k < input_size ==> 0 <= #[trigger] layer_v(r)[j].1[k] <= 65536,
    {
        let mut neurons: Vec<Neuron> = Vec::new();
        let mut i: usize = 0;
        while i < output_size
            invariant
                i <= output_size,
                neurons@.len() == i,
                layer_wf_s(layer_v(Layer { neurons }), input_size as int),
                forall|j: int|
                    0 <= j < i ==> -65536 <= (#[trigger] layer_v(Layer { neurons })[j]).0 <= 65536
                        && forall|k: int|
                        0 <= k < input_size ==> 0 <= #[trigger] layer_v(Layer { neurons })[j].1[k]
                            <= 65536,
            decreases output_size - i,
        {
            let ghost pre_lv = layer_v(Layer { neurons });
            let n = Neuron::random(rng, input_size);
            neurons.push(n);
            proof {
                assert(layer_v(Layer { neurons }) =~= pre_lv.push(neuron_v(n)));
            }
            i = i + 1;
        }
        Layer { neurons }
    }

    /// Forward evaluation of the whole row.
    pub fn propagate(&self, inputs: &Vec<i64>) -> (r: Vec<i64>)
        requires
            layer_wf_s(layer_v(*self), inputs@.len() as int),
        ensures
            ints_s(r@) == layer_out_s(layer_v(*self), ints_s(inputs@)),
            r@.len() == layer_v(*self).len(),
    {
        let mut outputs: Vec<i64> = Vec::new();
        let mut i: usize = 0;
        while i < self.neurons.len()
            invariant
                i <= self.neurons@.len(),
                layer_wf_s(layer_v(*self), inputs@.len() as int),
                outputs@.len() == i,
                forall|k: int|
                    0 <= k < i ==> #[trigger] outputs@[k] as int == neuron_out_s(
                        layer_v(*self)[k],
                        ints_s(inputs@),
                    ),
            decreases self.neurons@.len() - i,
        {
            proof {
                assert(layer_v(*self)[i as int] == neuron_v(self.neurons@[i as int]));
            }
            let o = self.neurons[i].propagate(inputs);
            outputs.push(o);
            i = i + 1;
        }
        proof {
            assert(ints_s(outputs@) =~= layer_out_s(layer_v(*self), ints_s(inputs@)));
        }
        outputs
    }
}

} // verus!
