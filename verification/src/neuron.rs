//! A single neuron: a bias and one weight per input.

use vstd::prelude::*;
use crate::fixed::{fp_add, fp_mul, relu, fp_add_s, fp_mul_s, relu_s};
use crate::network::NetworkError;

verus! {

/// The mathematical content of a neuron: its bias and its weights.
pub type NeuronV = (int, Seq<int>);

/// The integer view of a fixed-point vector.
pub open spec fn ints_s(v: Seq<i64>) -> Seq<int> {
    v.map_values(|x: i64| x as int)
}

#[derive(Debug)]
pub struct Neuron {
    pub bias: i64,
    pub weights: Vec<i64>,
}

/// What a `Neuron` denotes.
pub open spec fn neuron_v(n: Neuron) -> NeuronV {
    (n.bias as int, ints_s(n.weights@))
}

/// The genes of one neuron, bias first, then the weights in order.
pub open spec fn neuron_genes_s(nv: NeuronV) -> Seq<int> {
    seq![nv.0] + nv.1
}

/// The saturating fixed-point dot product of the first `k` pairs,
/// accumulated left to right as the executable loop does.
pub open spec fn dot_prefix_s(ws: Seq<int>, ins: Seq<int>, k: int) -> int
    decreases k,
{
    if k <= 0 {
        0
    } else {
        fp_add_s(dot_prefix_s(ws, ins, k - 1), fp_mul_s(ins[k - 1], ws[k - 1]))
    }
}

/// A neuron's output: dot product plus bias, rectified.
pub open spec fn neuron_out_s(nv: NeuronV, ins: Seq<int>) -> int {
    relu_s(fp_add_s(dot_prefix_s(nv.1, ins, nv.1.len() as int), nv.0))
}

/// The rectifier boundary: a neuron whose weighted sum plus bias is
/// negative outputs exactly zero; one whose sum is non-negative passes
/// it through unchanged.
pub proof fn lemma_relu_boundary(nv: NeuronV, ins: Seq<int>)
    ensures
        fp_add_s(dot_prefix_s(nv.1, ins, nv.1.len() as int), nv.0) < 0 ==> neuron_out_s(nv, ins)
            == 0,
        fp_add_s(dot_prefix_s(nv.1, ins, nv.1.len() as int), nv.0) >= 0 ==> neuron_out_s(nv, ins)
            == fp_add_s(dot_prefix_s(nv.1, ins, nv.1.len() as int), nv.0),
{
}

impl Neuron {
    /// Decode one neuron from the flat gene sequence at `*cursor`: one
    /// bias, then `input_size` weights.  Advances the cursor past what
    /// was consumed; fails without consuming when too few genes remain.
    pub fn from_weights(input_size: usize, weights: &Vec<i64>, cursor: &mut usize) -> (r: Result<
        Neuron,
        NetworkError,
    >)
        requires
            *old(cursor) <= weights@.len(),
        ensures
            match r {
                Ok(n) => {
                    &&& *old(cursor) + 1 + input_size <= weights@.len()
                    &&& *final(cursor) == *old(cursor) + 1 + input_size
                    &&& neuron_v(n).1.len() == input_size
                    &&& neuron_genes_s(neuron_v(n)) == ints_s(weights@).subrange(
                        *old(cursor) as int,
                        *final(cursor) as int,
                    )
                },
                Err(e) => {
                    &&& e == NetworkError::NotEnoughWeights
                    &&& *old(cursor) + 1 + input_size > weights@.len()
                    &&& *final(cursor) == *old(cursor)
                },
            },
    {
        let rem: usize = weights.len() - *cursor;
        if rem == 0 || rem - 1 < input_size {
            return Err(NetworkError::NotEnoughWeights);
        }
        let start: usize = *cursor;
        let wlen: usize = weights.len();
        let bias: i64 = weights[start];
        let mut ws: Vec<i64> = Vec::new();
        let mut i: usize = 0;
        while i < input_size
            invariant
                i <= input_size,
                wlen == weights@.len(),
                start + 1 + input_size <= wlen,
                ws@.len() == i,
                ws@ == weights@.subrange(start + 1, start + 1 + i),
            decreases input_size - i,
        {
            let w: i64 = weights[start + 1 + i];
            ws.push(w);
            proof {
                assert(ws@ =~= weights@.subrange(start as int + 1, start as int + 1 + i + 1));
            }
            i = i + 1;
        }
        *cursor = start + 1 + input_size;
        let n = Neuron { bias, weights: ws };
        proof {
            assert(neuron_genes_s(neuron_v(n)) =~= ints_s(weights@).subrange(
                start as int,
                start as int + 1 + input_size,
            ));
        }
        Ok(n)
    }

    /// A fresh random neuron: bias uniform in [-1, 1], each weight
    /// uniform in [0, 1] (fixed point, so [-SCALE, SCALE] and [0, SCALE]).
    pub fn random(rng: &mut rand::rngs::StdRng, input_size: usize) -> (r: Neuron)
        ensures
            neuron_v(r).1.len() == input_size,
            -65536 <= neuron_v(r).0 <= 65536,
            forall|k: int| 0 <= k < input_size ==> 0 <= #[trigger] neuron_v(r).1[k] <= 65536,
    {
        let bias: i64 = crate::rng::gen_range_i64(rng, -65536, 65536);
        let mut ws: Vec<i64> = Vec::new();
        let mut i: usize = 0;
        while i < input_size
            invariant
                i <= input_size,
                ws@.len() == i,
                forall|k: int| 0 <= k < i ==> 0 <= #[trigger] ws@[k] <= 65536,
            decreases input_size - i,
        {
            let w: i64 = crate::rng::gen_range_i64(rng, 0, 65536);
            ws.push(w);
            i = i + 1;
        }
        Neuron { bias, weights: ws }
    }

    /// Forward evaluation: rectified dot-product-plus-bias.
    pub fn propagate(&self, inputs: &Vec<i64>) -> (r: i64)
        requires
            inputs@.len() == self.weights@.len(),
        ensures
            r == neuron_out_s(neuron_v(*self), ints_s(inputs@)),
    {
        let mut acc: i64 = 0;
        let mut i: usize = 0;
        while i < self.weights.len()
            invariant
                i <= self.weights@.len(),
                inputs@.len() == self.weights@.len(),
                acc == dot_prefix_s(ints_s(self.weights@), ints_s(inputs@), i as int),
            decreases self.weights@.len() - i,
        {
            acc = fp_add(acc, fp_mul(inputs[i], self.weights[i]));
            i = i + 1;
        }
        relu(fp_add(acc, self.bias))
    }
}

} // verus!
