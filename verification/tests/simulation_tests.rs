use evosim::animal::Animal;
use evosim::brain::Brain;
use evosim::eye::Eye;
use evosim::fixed::wrap_unit;
use evosim::food::Food;
use evosim::genetic::{GaussianMutation, GeneticAlgorithm, RouletteWheelSelection, UniformCrossover};
use evosim::network::{LayerTopology, Network};
use evosim::vec2::Vec2;
use evosim::world::World;
use evosim::Simulation;
use rand::SeedableRng;

fn topo(sizes: &[usize]) -> Vec<LayerTopology> {
    let mut v = Vec::new();
    for &s in sizes {
        v.push(LayerTopology { neurons: s });
    }
    v
}

/// An agent whose brain is all zeros: its responses are always zero.
fn inert_animal(x: i64, y: i64, rotation: i64, speed: i64, cells: usize) -> Animal {
    let genes = vec![0i64; cells * (1 + cells) + 2 * (1 + cells)];
    let nn = Network::from_weights(&topo(&[cells, cells, 2]), &genes).unwrap();
    Animal {
        position: Vec2 { x, y },
        rotation,
        speed,
        eye: Eye::new(16384, 32768, cells),
        brain: Brain { nn },
        satiation: 0,
    }
}

fn sim_with(animals: Vec<Animal>, foods: Vec<Food>) -> Simulation {
    Simulation {
        world: World { animals, foods },
        ga: GeneticAlgorithm::new(
            RouletteWheelSelection,
            UniformCrossover,
            GaussianMutation::new(655, 19661),
        ),
        age: 0,
        generation: 0,
    }
}

#[test]
fn wrap_unit_overflow_examples() {
    // 0.99 + 0.02 wraps to about 0.01 on the unit torus.
    assert_eq!(wrap_unit(66192), 656);
    assert_eq!(wrap_unit(65536), 0);
    assert_eq!(wrap_unit(-100), 65436);
    assert_eq!(wrap_unit(30000), 30000);
}

#[test]
fn torus_wraparound_in_motion() {
    // Position x = 0.99, speed 0.02, heading along +x, zero
    // acceleration: after one tick x wraps to about 0.01, exactly
    // 656 raw units.
    let mut rng = rand::rngs::StdRng::seed_from_u64(0);
    let a = inert_animal(64881, 32768, 0, 1311, 4);
    let mut sim = sim_with(vec![a], vec![]);
    sim.step(&mut rng, 1311, 1311, 0, 0, 10, 16384, 32768, 4);

    assert_eq!(sim.world.animals[0].position.x, 656);
    assert_eq!(sim.world.animals[0].position.y, 32768);
    assert_eq!(sim.world.animals[0].rotation, 0);
    assert_eq!(sim.world.animals[0].speed, 1311);
    assert_eq!(sim.age, 1);
    assert_eq!(sim.generation, 0);
}

#[test]
fn collision_threshold_is_exact() {
    // Pellets at distance 0, 655 (exactly the threshold: eaten) and
    // 656 (just outside: not eaten).
    let mut rng = rand::rngs::StdRng::seed_from_u64(0);
    let a = inert_animal(1000, 1000, 0, 0, 4);
    let foods = vec![
        Food { position: Vec2 { x: 1000, y: 1000 } },
        Food { position: Vec2 { x: 1655, y: 1000 } },
        Food { position: Vec2 { x: 1656, y: 1000 } },
    ];
    let mut sim = sim_with(vec![a], foods);
    sim.step(&mut rng, 0, 0, 0, 0, 10, 16384, 32768, 4);

    assert_eq!(sim.world.animals[0].satiation, 2);
    // The uneaten pellet stays put; the eaten ones respawn on the torus.
    assert_eq!(sim.world.foods[2].position, Vec2 { x: 1656, y: 1000 });
    for f in &sim.world.foods {
        assert!((0..65536).contains(&f.position.x));
        assert!((0..65536).contains(&f.position.y));
    }
}

#[test]
fn generation_trigger_resets_population() {
    let mut rng = rand::rngs::StdRng::seed_from_u64(1);
    let a = inert_animal(1000, 1000, 0, 0, 4);
    let b = inert_animal(5000, 5000, 0, 0, 4);
    let foods = vec![Food { position: Vec2 { x: 1000, y: 1000 } }];
    let mut sim = sim_with(vec![a, b], foods);

    // Generation length zero: the very first tick crosses the boundary.
    sim.step(&mut rng, 0, 0, 0, 0, 0, 16384, 32768, 4);

    assert_eq!(sim.age, 0);
    assert_eq!(sim.generation, 1);
    assert_eq!(sim.world.animals.len(), 2);
    assert_eq!(sim.world.foods.len(), 1);
    for animal in sim.world.animals() {
        assert_eq!(animal.satiation, 0);
        assert_eq!(animal.eye, Eye::new(16384, 32768, 4));
        assert!((0..65536).contains(&animal.position.x));
        assert!((0..65536).contains(&animal.position.y));
        assert!((0..65536).contains(&animal.rotation));
    }
}

#[test]
fn simulation_random_builds_requested_world() {
    let mut rng = rand::rngs::StdRng::seed_from_u64(2);
    let sim = Simulation::random(&mut rng, 5, 7, 16384, 32768, 9);
    assert_eq!(sim.world().animals().len(), 5);
    assert_eq!(sim.world().foods().len(), 7);
    assert_eq!(sim.generation, 0);
    assert_eq!(sim.age, 0);
    for animal in sim.world().animals() {
        assert_eq!(animal.eye.cells, 9);
        assert_eq!(animal.satiation, 0);
    }
}

#[test]
fn simulation_random_negative_counts_give_empty_world() {
    let mut rng = rand::rngs::StdRng::seed_from_u64(3);
    let sim = Simulation::random(&mut rng, -4, -1, 16384, 32768, 4);
    assert_eq!(sim.world().animals().len(), 0);
    assert_eq!(sim.world().foods().len(), 0);
}

#[test]
fn fixed_seed_reproduces_trajectory() {
    // Two simulations driven by identically seeded generators agree
    // exactly, tick after tick.
    let mut rng1 = rand::rngs::StdRng::seed_from_u64(42);
    let mut rng2 = rand::rngs::StdRng::seed_from_u64(42);
    let mut sim1 = Simulation::random(&mut rng1, 2, 0, 16384, 32768, 4);
    let mut sim2 = Simulation::random(&mut rng2, 2, 0, 16384, 32768, 4);

    for _ in 0..3 {
        sim1.step(&mut rng1, 66, 655, 0, 0, 10, 16384, 32768, 4);
        sim2.step(&mut rng2, 66, 655, 0, 0, 10, 16384, 32768, 4);
    }

    for i in 0..2 {
        let a1 = &sim1.world.animals[i];
        let a2 = &sim2.world.animals[i];
        assert_eq!(a1.position, a2.position);
        assert_eq!(a1.rotation, a2.rotation);
        assert_eq!(a1.speed, a2.speed);
        assert_eq!(a1.satiation, a2.satiation);
    }
    assert_eq!(sim1.age, sim2.age);
    assert_eq!(sim1.generation, sim2.generation);
}

#[test]
fn animal_chromosome_roundtrip() {
    let mut rng = rand::rngs::StdRng::seed_from_u64(9);
    let animal = Animal::random(&mut rng, 16384, 32768, 4);
    let chromosome = animal.as_chromosome();
    assert_eq!(chromosome.len(), 4 * (1 + 4) + 2 * (1 + 4));

    let rebuilt = Animal::from_chromosome(chromosome, &mut rng, 16384, 32768, 4).unwrap();
    assert_eq!(rebuilt.as_chromosome().genes, animal.as_chromosome().genes);
    assert_eq!(rebuilt.satiation, 0);
}

#[test]
fn fixed_seed_matches_recorded_trajectory() {
    // Regression oracle: a two-agent, zero-food world under seed 42,
    // one tick with zero acceleration limits, against the recorded
    // positions, headings and speeds (x, y, rotation, speed per agent).
    let mut rng = rand::rngs::StdRng::seed_from_u64(42);
    let mut sim = Simulation::random(&mut rng, 2, 0, 16384, 32768, 4);
    sim.step(&mut rng, 66, 655, 0, 0, 10, 16384, 32768, 4);

    let mut got: Vec<i64> = Vec::new();
    for a in sim.world.animals() {
        got.push(a.position.x);
        got.push(a.position.y);
        got.push(a.rotation);
        got.push(a.speed);
    }
    assert_eq!(
        got,
        vec![30424, 7379, 21541, 131, 54597, 3926, 5127, 131]
    );
}
