use evosim::animal_individual::AnimalIndividual;
use evosim::genetic::{
    Chromosome, CrossoverMethod, GaussianMutation, GeneticAlgorithm, MutationMethod,
    RouletteWheelSelection, SelectionMethod, UniformCrossover,
};
use rand::SeedableRng;

fn individual(fitness: i64, genes: Vec<i64>) -> AnimalIndividual {
    AnimalIndividual {
        fitness,
        chromosome: Chromosome { genes },
    }
}

fn stock_ga() -> GeneticAlgorithm<RouletteWheelSelection, UniformCrossover, GaussianMutation> {
    GeneticAlgorithm::new(
        RouletteWheelSelection,
        UniformCrossover,
        GaussianMutation::new(655, 19661),
    )
}

#[test]
fn evolve_preserves_population_size_and_gene_length() {
    let mut rng = rand::rngs::StdRng::seed_from_u64(1);
    let ga = stock_ga();
    for n in 1..=5usize {
        let mut population = Vec::new();
        for k in 0..n {
            population.push(individual(k as i64, vec![1, 2, 3, 4, 5, 6, 7]));
        }
        let next = ga.evolve(&mut rng, &population);
        assert_eq!(next.len(), n);
        for ind in &next {
            assert_eq!(ind.chromosome.genes.len(), 7);
            assert_eq!(ind.fitness, 0);
        }
    }
}

#[test]
fn evolve_handles_all_zero_fitness() {
    let mut rng = rand::rngs::StdRng::seed_from_u64(2);
    let ga = stock_ga();
    let population = vec![
        individual(0, vec![10, 20]),
        individual(0, vec![30, 40]),
        individual(0, vec![50, 60]),
    ];
    let next = ga.evolve(&mut rng, &population);
    assert_eq!(next.len(), 3);
    for ind in &next {
        assert_eq!(ind.chromosome.genes.len(), 2);
    }
}

#[test]
fn selection_all_zero_fitness_is_uniformish() {
    let mut rng = rand::rngs::StdRng::seed_from_u64(3);
    let fitnesses = vec![0i64, 0, 0, 0];
    let mut seen = [false; 4];
    for _ in 0..200 {
        let i = RouletteWheelSelection.select(&mut rng, &fitnesses);
        assert!(i < 4);
        seen[i] = true;
    }
    // Every slot shows up under the uniform fallback.
    assert!(seen.iter().all(|&s| s));
}

#[test]
fn selection_picks_only_positive_fitness() {
    let mut rng = rand::rngs::StdRng::seed_from_u64(4);
    let fitnesses = vec![0i64, 5, 0];
    for _ in 0..100 {
        assert_eq!(RouletteWheelSelection.select(&mut rng, &fitnesses), 1);
    }
}

#[test]
fn crossover_takes_each_gene_from_a_parent() {
    let mut rng = rand::rngs::StdRng::seed_from_u64(5);
    let a = Chromosome {
        genes: vec![1, 3, 5, 7, 9, 11, 13, 15],
    };
    let b = Chromosome {
        genes: vec![2, 4, 6, 8, 10, 12, 14, 16],
    };
    for _ in 0..50 {
        let child = UniformCrossover.crossover(&mut rng, &a, &b);
        assert_eq!(child.genes.len(), 8);
        for (i, &g) in child.genes.iter().enumerate() {
            assert!(g == a.genes[i] || g == b.genes[i]);
        }
    }
}

#[test]
fn mutation_with_zero_chance_changes_nothing() {
    let mut rng = rand::rngs::StdRng::seed_from_u64(6);
    let mutation = GaussianMutation::new(0, 19661);
    let mut child = Chromosome {
        genes: vec![100, -200, 300],
    };
    mutation.mutate(&mut rng, &mut child);
    assert_eq!(child.genes, vec![100, -200, 300]);
}

#[test]
fn mutation_with_certain_chance_keeps_length() {
    let mut rng = rand::rngs::StdRng::seed_from_u64(7);
    let mutation = GaussianMutation::new(65536, 19661);
    let mut child = Chromosome {
        genes: vec![0; 32],
    };
    mutation.mutate(&mut rng, &mut child);
    assert_eq!(child.genes.len(), 32);
    // Deltas are scaled by the coefficient and bounded by six units.
    for &g in &child.genes {
        assert!(g.abs() <= 6 * 19661);
    }
}

#[test]
fn fitness_bias_dominant_individual_takes_over() {
    // One individual vastly fitter than the rest: over repeated
    // evolutions its genes dominate the gene pool.  Mutation is off so
    // every child gene is a copy of a parent gene.
    let mut rng = rand::rngs::StdRng::seed_from_u64(8);
    let ga = GeneticAlgorithm::new(
        RouletteWheelSelection,
        UniformCrossover,
        GaussianMutation::new(0, 19661),
    );
    let population = vec![
        individual(100000, vec![111; 10]),
        individual(1, vec![222; 10]),
        individual(1, vec![333; 10]),
        individual(1, vec![444; 10]),
        individual(1, vec![555; 10]),
    ];
    let mut dominant = 0usize;
    let mut total = 0usize;
    for _ in 0..100 {
        let next = ga.evolve(&mut rng, &population);
        for ind in &next {
            for &g in &ind.chromosome.genes {
                total += 1;
                if g == 111 {
                    dominant += 1;
                }
            }
        }
    }
    assert!(dominant * 10 >= total * 9, "dominant {dominant} of {total}");
}

#[test]
fn individual_accessors() {
    let ind = AnimalIndividual::create(Chromosome { genes: vec![9, 8, 7] });
    assert_eq!(ind.fitness(), 0);
    assert_eq!(ind.chromosome().len(), 3);
    assert_eq!(ind.chromosome().gene(1), 8);
}
