//! The genetic algorithm: fitness-proportional selection, uniform
//! crossover and per-gene mutation, combined by `evolve` into a
//! same-size next generation.
//!
//! The three policies are independent capabilities, each behind its own
//! trait, so another strategy can replace one without touching the
//! evolution loop.

use vstd::prelude::*;
use crate::fixed::{fp_add, fp_mul};
use crate::rng::gen_range_i64;
use crate::animal_individual::AnimalIndividual;

verus! {

/// A chromosome: one network's full gene set as a flat ordered sequence
/// of fixed-point reals.
#[derive(Debug)]
pub struct Chromosome {
    pub genes: Vec<i64>,
}

impl Chromosome {
    pub fn len(&self) -> (r: usize)
        ensures
            r == self.genes@.len(),
    {
        self.genes.len()
    }

    pub fn gene(&self, i: usize) -> (r: i64)
        requires
            i < self.genes@.len(),
        ensures
            r == self.genes@[i as int],
    {
        self.genes[i]
    }
}

/// Sum of the first `k` fitness values.
pub open spec fn fitness_sum_s(fs: Seq<i64>, k: int) -> int
    decreases k,
{
    if k <= 0 {
        0
    } else {
        fitness_sum_s(fs, k - 1) + fs[k - 1]
    }
}

/// With non-negative entries the partial sums grow.
pub proof fn lemma_fitness_sum_mono(fs: Seq<i64>, k1: int, k2: int)
    requires
        0 <= k1 <= k2 <= fs.len(),
        forall|i: int| 0 <= i < fs.len() ==> #[trigger] fs[i] >= 0,
    ensures
        fitness_sum_s(fs, k1) <= fitness_sum_s(fs, k2),
    decreases k2 - k1,
{
    if k1 < k2 {
        lemma_fitness_sum_mono(fs, k1, k2 - 1);
    }
}

/// Entries bounded by `b` give a sum bounded by `k * b`.
pub proof fn lemma_fitness_sum_bound(fs: Seq<i64>, k: int, b: int)
    requires
        0 <= k <= fs.len(),
        forall|i: int| 0 <= i < fs.len() ==> 0 <= #[trigger] fs[i] <= b,
    ensures
        0 <= fitness_sum_s(fs, k) <= k * b,
    decreases k,
{
    if k > 0 {
        lemma_fitness_sum_bound(fs, k - 1, b);
        assert(k * b == (k - 1) * b + b) by (nonlinear_arith);
    } else {
        assert(k * b == 0) by (nonlinear_arith)
            requires
                k == 0,
        ;
    }
}

/// Picks parents: an index into the fitness table, each individual's
/// chance proportional to its fitness share; uniform when all fitness
/// is zero.
pub trait SelectionMethod: Sized {
    fn select(&self, rng: &mut rand::rngs::StdRng, fitnesses: &Vec<i64>) -> (r: usize)
        requires
            1 <= fitnesses@.len() <= 0x7fff_ffff,
            forall|i: int| 0 <= i < fitnesses@.len() ==> #[trigger] fitnesses@[i] >= 0,
            fitness_sum_s(fitnesses@, fitnesses@.len() as int) <= 0x7fff_ffff_ffff_ffff,
        ensures
            r < fitnesses@.len(),
            fitness_sum_s(fitnesses@, fitnesses@.len() as int) > 0 ==> fitnesses@[r as int] > 0,
    ;
}

/// Combines two parents' chromosomes gene by gene.
pub trait CrossoverMethod: Sized {
    fn crossover(&self, rng: &mut rand::rngs::StdRng, a: &Chromosome, b: &Chromosome) -> (r:
        Chromosome)
        requires
            a.genes@.len() == b.genes@.len(),
        ensures
            r.genes@.len() == a.genes@.len(),
            forall|i: int|
                0 <= i < r.genes@.len() ==> #[trigger] r.genes@[i] == a.genes@[i] || r.genes@[i]
                    == b.genes@[i],
    ;
}

/// Perturbs a child chromosome in place, keeping its gene count and
/// changing each gene only as the policy's own per-gene relation
/// allows.
pub trait MutationMethod: Sized {
    /// How a gene after mutation may relate to the gene before.
    spec fn gene_rel(&self, old_gene: int, new_gene: int) -> bool;

    fn mutate(&self, rng: &mut rand::rngs::StdRng, child: &mut Chromosome)
        ensures
            final(child).genes@.len() == old(child).genes@.len(),
            forall|i: int|
                0 <= i < old(child).genes@.len() ==> self.gene_rel(
                    old(child).genes@[i] as int,
                    (#[trigger] final(child).genes@[i]) as int,
                ),
    ;
}

/// Roulette-wheel selection: draw a point below the fitness total and
/// walk the accumulated wheel; all-zero fitness falls back to a uniform
/// draw instead of dividing by zero.
#[derive(Debug, Clone, Copy)]
pub struct RouletteWheelSelection;

impl SelectionMethod for RouletteWheelSelection {
    fn select(&self, rng: &mut rand::rngs::StdRng, fitnesses: &Vec<i64>) -> (r: usize) {
        let n: usize = fitnesses.len();
        let mut total: i64 = 0;
        let mut k: usize = 0;
        while k < n
            invariant
                k <= n,
                n == fitnesses@.len() <= 0x7fff_ffff,
                forall|i: int| 0 <= i < fitnesses@.len() ==> #[trigger] fitnesses@[i] >= 0,
                fitness_sum_s(fitnesses@, n as int) <= 0x7fff_ffff_ffff_ffff,
                total == fitness_sum_s(fitnesses@, k as int),
                0 <= total,
            decreases n - k,
        {
            proof {
                lemma_fitness_sum_mono(fitnesses@, k as int + 1, n as int);
                lemma_fitness_sum_mono(fitnesses@, 0, k as int + 1);
            }
            total = total + fitnesses[k];
            k = k + 1;
        }
        if total == 0 {
            let idx: i64 = gen_range_i64(rng, 0, (n as i64) - 1);
            idx as usize
        } else {
            let pick: i64 = gen_range_i64(rng, 0, total - 1);
            let mut acc: i64 = 0;
            let mut i: usize = 0;
            while i < n
                invariant
                    i <= n,
                    n == fitnesses@.len() <= 0x7fff_ffff,
                    forall|j: int| 0 <= j < fitnesses@.len() ==> #[trigger] fitnesses@[j] >= 0,
                    total == fitness_sum_s(fitnesses@, n as int),
                    acc == fitness_sum_s(fitnesses@, i as int),
                    0 <= acc <= pick,
                    pick < total,
                decreases n - i,
            {
                proof {
                    lemma_fitness_sum_mono(fitnesses@, i as int + 1, n as int);
                    lemma_fitness_sum_mono(fitnesses@, 0, i as int + 1);
                }
                let next: i64 = acc + fitnesses[i];
                if pick < next {
                    return i;
                }
                acc = next;
                i = i + 1;
            }
            proof {
                assert(acc == fitness_sum_s(fitnesses@, n as int));
                assert(false);
            }
            0
        }
    }
}

/// Uniform crossover: an unbiased coin flip per gene index picks which
/// parent's value the child inherits.
#[derive(Debug, Clone, Copy)]
pub struct UniformCrossover;

impl CrossoverMethod for UniformCrossover {
    fn crossover(&self, rng: &mut rand::rngs::StdRng, a: &Chromosome, b: &Chromosome) -> (r:
        Chromosome) {
        let n: usize = a.genes.len();
        let mut genes: Vec<i64> = Vec::new();
        let mut i: usize = 0;
        while i < n
            invariant
                i <= n,
                n == a.genes@.len(),
                a.genes@.len() == b.genes@.len(),
                genes@.len() == i,
                forall|j: int|
                    0 <= j < i ==> #[trigger] genes@[j] == a.genes@[j] || genes@[j] == b.genes@[j],
            decreases n - i,
        {
            let coin: i64 = gen_range_i64(rng, 0, 1);
            if coin == 0 {
                genes.push(a.genes[i]);
            } else {
                genes.push(b.genes[i]);
            }
            i = i + 1;
        }
        Chromosome { genes }
    }
}

/// Gaussian mutation: with probability `chance` (fixed point, SCALE is
/// certainty) a gene receives a zero-mean approximately normal delta
/// (a sum of twelve uniform draws) scaled by `coeff`.
#[derive(Debug, Clone, Copy)]
pub struct GaussianMutation {
    /// Per-gene mutation probability, in [0, SCALE].
    pub chance: i64,
    /// Scale applied to each delta, fixed point.
    pub coeff: i64,
}

impl GaussianMutation {
    pub fn new(chance: i64, coeff: i64) -> (r: GaussianMutation)
        requires
            0 <= chance <= 65536,
        ensures
            r == (GaussianMutation { chance, coeff }),
    {
        GaussianMutation { chance, coeff }
    }
}

impl MutationMethod for GaussianMutation {
    /// A gene is left exactly as it was, or shifted by the coefficient
    /// times a zero-centred delta of at most six units.
    open spec fn gene_rel(&self, old_gene: int, new_gene: int) -> bool {
        new_gene == old_gene || exists|d: int|
            -393216 <= d <= 393216 && new_gene == crate::fixed::fp_add_s(
                old_gene,
                #[trigger] crate::fixed::fp_mul_s(self.coeff as int, d),
            )
    }

    #[verifier::loop_isolation(false)]
    fn mutate(&self, rng: &mut rand::rngs::StdRng, child: &mut Chromosome) {
        let n: usize = child.genes.len();
        let mut i: usize = 0;
        while i < n
            invariant
                i <= n,
                n == child.genes@.len(),
                n == old(child).genes@.len(),
                forall|k: int| i <= k < n ==> #[trigger] child.genes@[k] == old(child).genes@[k],
                forall|k: int|
                    0 <= k < i ==> self.gene_rel(
                        old(child).genes@[k] as int,
                        (#[trigger] child.genes@[k]) as int,
                    ),
            decreases n - i,
        {
            let roll: i64 = gen_range_i64(rng, 0, 65535);
            if roll < self.chance {
                let mut g: i64 = 0;
                let mut j: usize = 0;
                while j < 12
                    invariant
                        j <= 12,
                        0 <= g <= j * 65536,
                    decreases 12 - j,
                {
                    let u: i64 = gen_range_i64(rng, 0, 65536);
                    g = g + u;
                    j = j + 1;
                }
                let delta: i64 = g - 393216;
                let perturbed: i64 = fp_add(child.genes[i], fp_mul(self.coeff, delta));
                proof {
                    assert(-393216 <= delta as int <= 393216);
                    assert(perturbed as int == crate::fixed::fp_add_s(
                        child.genes@[i as int] as int,
                        crate::fixed::fp_mul_s(self.coeff as int, delta as int),
                    ));
                    assert(self.gene_rel(child.genes@[i as int] as int, perturbed as int));
                }
                child.genes.set(i, perturbed);
            }
            i = i + 1;
        }
    }
}

/// The child descends from the parents at `pa` and `pb`: it has their
/// gene count, each of its genes stands in the mutation relation to the
/// corresponding gene of one of them, and whenever any fitness in the
/// population is positive, both parents' is.
pub open spec fn evolved_child_s<M: MutationMethod>(
    mutation: M,
    pop: Seq<AnimalIndividual>,
    child: AnimalIndividual,
    pa: int,
    pb: int,
) -> bool {
    &&& 0 <= pa < pop.len()
    &&& 0 <= pb < pop.len()
    &&& (fitness_sum_s(pop.map_values(|a: AnimalIndividual| a.fitness), pop.len() as int) > 0
        ==> pop[pa].fitness > 0 && pop[pb].fitness > 0)
    &&& child.chromosome.genes@.len() == pop[pa].chromosome.genes@.len()
    &&& child.chromosome.genes@.len() == pop[pb].chromosome.genes@.len()
    &&& forall|g: int|
        0 <= g < child.chromosome.genes@.len() ==> mutation.gene_rel(
            pop[pa].chromosome.genes@[g] as int,
            (#[trigger] child.chromosome.genes@[g]) as int,
        ) || mutation.gene_rel(
            pop[pb].chromosome.genes@[g] as int,
            child.chromosome.genes@[g] as int,
        )
}

/// The child descends from some pair of parents in the population.
pub open spec fn has_parents_s<M: MutationMethod>(
    mutation: M,
    pop: Seq<AnimalIndividual>,
    child: AnimalIndividual,
) -> bool {
    exists|pa: int, pb: int| evolved_child_s(mutation, pop, child, pa, pb)
}

/// The evolution loop: per output slot, select two parents by fitness,
/// cross their chromosomes gene-wise, mutate the child, and wrap it
/// with a neutral fitness.
#[derive(Debug)]
pub struct GeneticAlgorithm<S, C, M> {
    pub selection: S,
    pub crossover: C,
    pub mutation: M,
}

impl<S: SelectionMethod, C: CrossoverMethod, M: MutationMethod> GeneticAlgorithm<S, C, M> {
    pub fn new(selection: S, crossover: C, mutation: M) -> (r: Self)
        ensures
            r == (GeneticAlgorithm { selection, crossover, mutation }),
    {
        GeneticAlgorithm { selection, crossover, mutation }
    }

    /// One generation: always exactly as many individuals out as in,
    /// every child's gene count equal to the parents', every fitness
    /// reset to zero.
    pub fn evolve(&self, rng: &mut rand::rngs::StdRng, population: &Vec<AnimalIndividual>) -> (r:
        Vec<AnimalIndividual>)
        requires
            1 <= population@.len() <= 0x7fff_ffff,
            forall|i: int|
                0 <= i < population@.len() ==> (#[trigger] population@[i]).fitness >= 0,
            fitness_sum_s(
                population@.map_values(|a: AnimalIndividual| a.fitness),
                population@.len() as int,
            ) <= 0x7fff_ffff_ffff_ffff,
            forall|i: int|
                0 <= i < population@.len() ==> (#[trigger] population@[i]).chromosome.genes@.len()
                    == population@[0].chromosome.genes@.len(),
        ensures
            r@.len() == population@.len(),
            forall|i: int| 0 <= i < r@.len() ==> (#[trigger] r@[i]).fitness == 0,
            forall|i: int|
                0 <= i < r@.len() ==> (#[trigger] r@[i]).chromosome.genes@.len()
                    == population@[0].chromosome.genes@.len(),
            forall|i: int|
                0 <= i < r@.len() ==> has_parents_s(self.mutation, population@, #[trigger] r@[i]),
    {
        let n: usize = population.len();
        let mut fitnesses: Vec<i64> = Vec::new();
        let mut k: usize = 0;
        while k < n
            invariant
                k <= n,
                n == population@.len(),
                fitnesses@.len() == k,
                forall|i: int|
                    0 <= i < k ==> #[trigger] fitnesses@[i] == population@[i].fitness,
            decreases n - k,
        {
            fitnesses.push(population[k].fitness);
            k = k + 1;
        }
        proof {
            assert(fitnesses@ =~= population@.map_values(|a: AnimalIndividual| a.fitness));
        }
        let mut out: Vec<AnimalIndividual> = Vec::new();
        let mut s: usize = 0;
        while s < n
            invariant
                s <= n,
                n == population@.len(),
                1 <= population@.len() <= 0x7fff_ffff,
                forall|i: int|
                    0 <= i < population@.len() ==> (#[trigger] population@[i]).fitness >= 0,
                fitness_sum_s(fitnesses@, fitnesses@.len() as int) <= 0x7fff_ffff_ffff_ffff,
                fitnesses@ == population@.map_values(|a: AnimalIndividual| a.fitness),
                forall|i: int|
                    0 <= i < population@.len() ==> (#[trigger] population@[i]).chromosome.genes@.len()
                        == population@[0].chromosome.genes@.len(),
                out@.len() == s,
                forall|i: int| 0 <= i < s ==> (#[trigger] out@[i]).fitness == 0,
                forall|i: int|
                    0 <= i < s ==> (#[trigger] out@[i]).chromosome.genes@.len()
                        == population@[0].chromosome.genes@.len(),
                forall|i: int|
                    0 <= i < s ==> has_parents_s(self.mutation, population@, #[trigger] out@[i]),
            decreases n - s,
        {
            let pa: usize = self.selection.select(rng, &fitnesses);
            let pb: usize = self.selection.select(rng, &fitnesses);
            let mut child: Chromosome = self.crossover.crossover(
                rng,
                &population[pa].chromosome,
                &population[pb].chromosome,
            );
            let ghost crossed = child.genes@;
            self.mutation.mutate(rng, &mut child);
            let ind = AnimalIndividual::create(child);
            proof {
                assert(evolved_child_s(self.mutation, population@, ind, pa as int, pb as int)) by {
                    assert forall|g: int| 0 <= g < ind.chromosome.genes@.len() implies
                        self.mutation.gene_rel(
                            population@[pa as int].chromosome.genes@[g] as int,
                            (#[trigger] ind.chromosome.genes@[g]) as int,
                        ) || self.mutation.gene_rel(
                            population@[pb as int].chromosome.genes@[g] as int,
                            ind.chromosome.genes@[g] as int,
                        ) by {
                        assert(crossed[g] == population@[pa as int].chromosome.genes@[g]
                            || crossed[g] == population@[pb as int].chromosome.genes@[g]);
                        assert(self.mutation.gene_rel(
                            crossed[g] as int,
                            ind.chromosome.genes@[g] as int,
                        ));
                    };
                };
            }
            let ghost pre_out = out@;
            out.push(ind);
            proof {
                assert(has_parents_s(self.mutation, population@, ind));
                assert forall|i: int| 0 <= i < s + 1 implies has_parents_s(
                    self.mutation,
                    population@,
                    #[trigger] out@[i],
                ) by {
                    if i < s {
                        assert(out@[i] == pre_out[i]);
                    } else {
                        assert(out@[i] == ind);
                    }
                };
            }
            s = s + 1;
        }
        out
    }
}

} // verus!
