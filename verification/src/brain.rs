//! An agent's brain: a feedforward network whose input width equals the
//! eye's sector count, with one hidden layer of the same width and two
//! outputs (speed delta, rotation delta).

use vstd::prelude::*;
use crate::eye::Eye;
use crate::genetic::Chromosome;
use crate::network::{
    Network, NetworkError, LayerTopology, net_v, net_genes_s, matches_topology_s, topo_v,
    topo_weights_s,
};
use crate::neuron::ints_s;

verus! {

#[derive(Debug)]
pub struct Brain {
    pub nn: Network,
}

/// The topology a brain uses for an eye with `cells` sectors:
/// `cells` inputs, one hidden layer of `cells` neurons, two outputs.
pub open spec fn brain_topo_s(cells: int) -> Seq<int> {
    seq![cells, cells, 2]
}

/// The gene count of a brain for an eye with `cells` sectors.
pub open spec fn brain_gene_count_s(cells: int) -> int {
    topo_weights_s(brain_topo_s(cells))
}

impl Brain {
    /// The concrete topology for the given eye.
    fn topology(eye: &Eye) -> (r: Vec<LayerTopology>)
        ensures
            topo_v(r@) == brain_topo_s(eye.cells as int),
            r@.len() == 3,
    {
        let mut v: Vec<LayerTopology> = Vec::new();
        v.push(LayerTopology { neurons: eye.cells });
        v.push(LayerTopology { neurons: eye.cells });
        v.push(LayerTopology { neurons: 2 });
        proof {
            assert(topo_v(v@) =~= brain_topo_s(eye.cells as int));
        }
        v
    }

    /// A brain with every gene drawn fresh from the generator.
    pub fn random(rng: &mut rand::rngs::StdRng, eye: &Eye) -> (r: Brain)
        ensures
            matches_topology_s(net_v(r.nn), brain_topo_s(eye.cells as int)),
    {
        let topology = Self::topology(eye);
        Brain { nn: Network::random(rng, &topology) }
    }

    /// Decode a brain from a chromosome; succeeds exactly when the
    /// chromosome holds the gene count the eye's topology requires.
    pub fn from_chromosome(chromosome: Chromosome, eye: &Eye) -> (r: Result<Brain, NetworkError>)
        ensures
            match r {
                Ok(b) => {
                    &&& chromosome.genes@.len() == brain_gene_count_s(eye.cells as int)
                    &&& matches_topology_s(net_v(b.nn), brain_topo_s(eye.cells as int))
                    &&& net_genes_s(net_v(b.nn)) == ints_s(chromosome.genes@)
                },
                Err(NetworkError::NotEnoughWeights) => chromosome.genes@.len()
                    < brain_gene_count_s(eye.cells as int),
                Err(NetworkError::TooManyWeights) => chromosome.genes@.len() > brain_gene_count_s(
                    eye.cells as int,
                ),
            },
    {
        let topology = Self::topology(eye);
        match Network::from_weights(&topology, &chromosome.genes) {
            Ok(nn) => Ok(Brain { nn }),
            Err(e) => Err(e),
        }
    }

    /// Encode this brain's genes as a chromosome, in the canonical
    /// bias-then-weights, neuron-major, layer-major order.
    pub fn as_chromosome(&self) -> (r: Chromosome)
        ensures
            ints_s(r.genes@) == net_genes_s(net_v(self.nn)),
    {
        Chromosome { genes: self.nn.weights() }
    }
}

} // verus!
