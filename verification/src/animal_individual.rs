//! The genetic algorithm's view of an agent: its fitness (food eaten)
//! and its chromosome.  A transient projection, used only across a
//! generation boundary.

use vstd::prelude::*;
use crate::animal::{Animal, animal_wf_s};
use crate::brain::brain_gene_count_s;
use crate::eye::Eye;
use crate::genetic::Chromosome;
use crate::network::{NetworkError, net_v, net_genes_s};
use crate::neuron::ints_s;

verus! {

#[derive(Debug)]
pub struct AnimalIndividual {
    pub fitness: i64,
    pub chromosome: Chromosome,
}

impl AnimalIndividual {
    /// Wrap a child chromosome with a neutral fitness; the caller
    /// assigns real fitness later.
    pub fn create(chromosome: Chromosome) -> (r: AnimalIndividual)
        ensures
            r.fitness == 0,
            r.chromosome == chromosome,
    {
        AnimalIndividual { fitness: 0, chromosome }
    }

    pub fn chromosome(&self) -> (r: &Chromosome)
        ensures
            *r == self.chromosome,
    {
        &self.chromosome
    }

    pub fn fitness(&self) -> (r: i64)
        ensures
            r == self.fitness,
    {
        self.fitness
    }

    /// Project an agent: fitness is its food count, the chromosome its
    /// brain's genes.
    pub fn from_animal(animal: &Animal) -> (r: AnimalIndividual)
        requires
            animal.satiation <= 0x8000_0000,
        ensures
            r.fitness == animal.satiation,
            r.fitness >= 0,
            ints_s(r.chromosome.genes@) == net_genes_s(net_v(animal.brain.nn)),
    {
        AnimalIndividual {
            fitness: animal.satiation as i64,
            chromosome: animal.as_chromosome(),
        }
    }

    /// Rehydrate an evolved individual into a fresh agent.
    pub fn into_animal(
        self,
        rng: &mut rand::rngs::StdRng,
        fov_range: i64,
        fov_angle: i64,
        cells: usize,
    ) -> (r: Result<Animal, NetworkError>)
        requires
            0 < fov_range <= 0x100_0000_0000,
            0 < fov_angle <= 65536,
            1 <= cells <= 65536,
        ensures
            match r {
                Ok(a) => {
                    &&& self.chromosome.genes@.len() == brain_gene_count_s(cells as int)
                    &&& animal_wf_s(a)
                    &&& a.eye == (Eye { fov_range, fov_angle, cells })
                    &&& a.satiation == 0
                    &&& a.speed == 131
                    &&& net_genes_s(net_v(a.brain.nn)) == ints_s(self.chromosome.genes@)
                },
                Err(NetworkError::NotEnoughWeights) => self.chromosome.genes@.len()
                    < brain_gene_count_s(cells as int),
                Err(NetworkError::TooManyWeights) => self.chromosome.genes@.len()
                    > brain_gene_count_s(cells as int),
            },
    {
        Animal::from_chromosome(self.chromosome, rng, fov_range, fov_angle, cells)
    }
}

} // verus!
