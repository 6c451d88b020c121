//! An agent: a point on the torus with a heading, a speed, an eye, a
//! brain, and a count of the food it has eaten this generation.

use vstd::prelude::*;
use crate::brain::{Brain, brain_topo_s, brain_gene_count_s};
use crate::eye::{Eye, eye_wf_s};
use crate::genetic::Chromosome;
use crate::network::{NetworkError, net_v, net_genes_s, matches_topology_s};
use crate::neuron::ints_s;
use crate::rng::gen_range_i64;
use crate::vec2::{Vec2, vec2_wf_s};

verus! {

#[derive(Debug)]
pub struct Animal {
    pub position: Vec2,
    /// Heading in turns: [0, SCALE) is one revolution.
    pub rotation: i64,
    /// Speed in fixed-point world units per tick.
    pub speed: i64,
    pub eye: Eye,
    pub brain: Brain,
    /// Food eaten this generation (the fitness accumulator), capped so
    /// that fitness sums stay representable.
    pub satiation: u64,
}

/// Everything the simulation preserves about an agent: coordinates and
/// heading on the torus, a valid eye, a brain matching that eye's
/// topology, and a bounded accumulator.
pub open spec fn animal_wf_s(a: Animal) -> bool {
    &&& vec2_wf_s(a.position)
    &&& 0 <= a.rotation < 65536
    &&& eye_wf_s(a.eye)
    &&& matches_topology_s(net_v(a.brain.nn), brain_topo_s(a.eye.cells as int))
    &&& a.satiation <= 0x8000_0000
}

impl Animal {
    /// Place a fresh agent: random position and heading, the configured
    /// starting speed (0.002 in fixed point), zero satiation.
    fn new(eye: Eye, brain: Brain, rng: &mut rand::rngs::StdRng) -> (r: Animal)
        requires
            eye_wf_s(eye),
            matches_topology_s(net_v(brain.nn), brain_topo_s(eye.cells as int)),
        ensures
            animal_wf_s(r),
            r.eye == eye,
            r.brain == brain,
            r.satiation == 0,
            r.speed == 131,
    {
        let x: i64 = gen_range_i64(rng, 0, 65535);
        let y: i64 = gen_range_i64(rng, 0, 65535);
        let rotation: i64 = gen_range_i64(rng, 0, 65535);
        Animal {
            position: Vec2 { x, y },
            rotation,
            speed: 131,
            eye,
            brain,
            satiation: 0,
        }
    }

    /// A fresh agent with a random brain.
    pub fn random(rng: &mut rand::rngs::StdRng, fov_range: i64, fov_angle: i64, cells: usize) -> (r:
        Animal)
        requires
            0 < fov_range <= 0x100_0000_0000,
            0 < fov_angle <= 65536,
            1 <= cells <= 65536,
        ensures
            animal_wf_s(r),
            r.eye == (Eye { fov_range, fov_angle, cells }),
            r.satiation == 0,
            r.speed == 131,
    {
        let eye = Eye::new(fov_range, fov_angle, cells);
        let brain = Brain::random(rng, &eye);
        Self::new(eye, brain, rng)
    }

    /// Rehydrate an agent from an evolved chromosome: the brain is
    /// decoded, position, heading and speed start fresh, satiation
    /// resets.  Succeeds exactly when the gene count fits the topology.
    pub fn from_chromosome(
        chromosome: Chromosome,
        rng: &mut rand::rngs::StdRng,
        fov_range: i64,
        fov_angle: i64,
        cells: usize,
    ) -> (r: Result<Animal, NetworkError>)
        requires
            0 < fov_range <= 0x100_0000_0000,
            0 < fov_angle <= 65536,
            1 <= cells <= 65536,
        ensures
            match r {
                Ok(a) => {
                    &&& chromosome.genes@.len() == brain_gene_count_s(cells as int)
                    &&& animal_wf_s(a)
                    &&& a.eye == (Eye { fov_range, fov_angle, cells })
                    &&& a.satiation == 0
                    &&& a.speed == 131
                    &&& net_genes_s(net_v(a.brain.nn)) == ints_s(chromosome.genes@)
                },
                Err(NetworkError::NotEnoughWeights) => chromosome.genes@.len()
                    < brain_gene_count_s(cells as int),
                Err(NetworkError::TooManyWeights) => chromosome.genes@.len() > brain_gene_count_s(
                    cells as int,
                ),
            },
    {
        let eye = Eye::new(fov_range, fov_angle, cells);
        match Brain::from_chromosome(chromosome, &eye) {
            Ok(brain) => Ok(Self::new(eye, brain, rng)),
            Err(e) => Err(e),
        }
    }

    /// This agent's genes, in the canonical encode order.
    pub fn as_chromosome(&self) -> (r: Chromosome)
        ensures
            ints_s(r.genes@) == net_genes_s(net_v(self.brain.nn)),
    {
        self.brain.as_chromosome()
    }

    /// Record food eaten this tick, saturating at the accumulator cap.
    pub(crate) fn add_satiation(&mut self, count: u64) -> (u: ())
        requires
            old(self).satiation <= 0x8000_0000,
            count <= 0x7fff_ffff,
        ensures
            final(self).satiation == if old(self).satiation + count > 0x8000_0000 {
                0x8000_0000u64
            } else {
                (old(self).satiation + count) as u64
            },
            final(self).position == old(self).position,
            final(self).rotation == old(self).rotation,
            final(self).speed == old(self).speed,
            final(self).eye == old(self).eye,
            final(self).brain == old(self).brain,
    {
        let s: u64 = self.satiation + count;
        self.satiation = if s > 0x8000_0000 {
            0x8000_0000
        } else {
            s
        };
    }

    /// Apply the brain's decision: a new speed and a new heading.
    pub(crate) fn set_motion(&mut self, speed: i64, rotation: i64) -> (u: ())
        ensures
            final(self).speed == speed,
            final(self).rotation == rotation,
            final(self).position == old(self).position,
            final(self).eye == old(self).eye,
            final(self).brain == old(self).brain,
            final(self).satiation == old(self).satiation,
    {
        self.speed = speed;
        self.rotation = rotation;
    }

    /// Move to a new point on the torus.
    pub(crate) fn set_position(&mut self, position: Vec2) -> (u: ())
        ensures
            final(self).position == position,
            final(self).rotation == old(self).rotation,
            final(self).speed == old(self).speed,
            final(self).eye == old(self).eye,
            final(self).brain == old(self).brain,
            final(self).satiation == old(self).satiation,
    {
        self.position = position;
    }

    pub fn position(&self) -> (r: Vec2)
        ensures
            r == self.position,
    {
        self.position
    }

    pub fn rotation(&self) -> (r: i64)
        ensures
            r == self.rotation,
    {
        self.rotation
    }
}

} // verus!
