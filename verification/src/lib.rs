//! A population of foraging agents on a wrapping 2-D arena.  Their
//! movement decisions come from small feedforward networks; their
//! network weights evolve across generations by a genetic algorithm
//! rewarding food consumption.
//!
//! Every real quantity is fixed point (`fixed::SCALE` is 1.0); the
//! random source is an injected seedable generator, consumed in a fixed
//! order, so one seed yields one trajectory.

use vstd::prelude::*;

pub mod animal;
pub mod animal_individual;
pub mod brain;
pub mod eye;
pub mod fixed;
pub mod food;
pub mod genetic;
pub mod layer;
pub mod network;
pub mod neuron;
pub mod rng;
pub mod trig;
pub mod vec2;
pub mod world;

verus! {

use crate::animal::{Animal, animal_wf_s};
use crate::animal_individual::AnimalIndividual;
use crate::brain::{brain_topo_s, brain_gene_count_s};
use crate::eye::{Eye, vision_s};
use crate::fixed::{clamp_s, clamp_fp, fp_add, fp_add_s, fp_mul, fp_mul_s, wrap_unit, wrap_unit_s};
use crate::food::Food;
use crate::genetic::{
    GeneticAlgorithm, RouletteWheelSelection, UniformCrossover, GaussianMutation, MutationMethod,
    fitness_sum_s, evolved_child_s, has_parents_s, lemma_fitness_sum_bound,
};
use crate::network::{
    net_v, net_genes_s, net_out_s, matches_topology_s, lemma_matches_topology_wf,
    lemma_net_genes_len, lemma_net_out_len, lemma_net_out_bounded,
};
use crate::neuron::ints_s;
use crate::trig::{sin_turns, cos_turns, sin_turns_s, cos_turns_s};
use crate::vec2::{Vec2, torus_dist, torus_dist_s};
use crate::world::{World, world_wf_s};

/// Distance at or under which an agent consumes a pellet (0.01).
pub const EAT_DISTANCE: i64 = 655;

/// An agent reaches a pellet when their torus distance is within the
/// collision threshold.
pub open spec fn eats_s(a: Animal, f: Food) -> bool {
    torus_dist_s(a.position, f.position) <= EAT_DISTANCE as int
}

/// How many of the first `k` pellets the agent reaches.
pub open spec fn eaten_prefix_s(a: Animal, foods: Seq<Food>, k: int) -> int
    decreases k,
{
    if k <= 0 {
        0
    } else {
        eaten_prefix_s(a, foods, k - 1) + if eats_s(a, foods[k - 1]) {
            1int
        } else {
            0int
        }
    }
}

/// How many pellets the agent reaches this tick.
pub open spec fn eaten_count_s(a: Animal, foods: Seq<Food>) -> int {
    eaten_prefix_s(a, foods, foods.len() as int)
}

proof fn lemma_eaten_prefix_bounds(a: Animal, foods: Seq<Food>, k: int)
    requires
        0 <= k,
    ensures
        0 <= eaten_prefix_s(a, foods, k) <= k,
    decreases k,
{
    if k > 0 {
        lemma_eaten_prefix_bounds(a, foods, k - 1);
    }
}

/// The agent's fitness accumulator after one collision pass over the
/// pellets, saturating at the cap.
pub open spec fn sat_after_s(a: Animal, foods: Seq<Food>) -> int {
    if a.satiation + eaten_count_s(a, foods) > 0x8000_0000 {
        0x8000_0000int
    } else {
        a.satiation + eaten_count_s(a, foods)
    }
}

/// Some agent reaches the pellet this tick.
pub open spec fn some_animal_eats_s(animals: Seq<Animal>, f: Food) -> bool {
    exists|i: int| 0 <= i < animals.len() && eats_s(animals[i], f)
}

/// The brain's raw decision for one agent: its network's outputs on the
/// agent's current vision of the pellets.
pub open spec fn brain_response_s(a: Animal, foods: Seq<Food>) -> Seq<int> {
    net_out_s(net_v(a.brain.nn), vision_s(a.eye, a.position, a.rotation as int, foods))
}

/// Total food eaten by the first `k` agents this generation.
pub open spec fn satiation_sum_s(animals: Seq<Animal>, k: int) -> int
    decreases k,
{
    if k <= 0 {
        0
    } else {
        satiation_sum_s(animals, k - 1) + animals[k - 1].satiation
    }
}

proof fn lemma_satiation_sum_matches(fs: Seq<i64>, animals: Seq<Animal>, k: int)
    requires
        0 <= k <= animals.len(),
        fs.len() == animals.len(),
        forall|i: int| 0 <= i < animals.len() ==> #[trigger] fs[i] == animals[i].satiation,
    ensures
        fitness_sum_s(fs, k) == satiation_sum_s(animals, k),
    decreases k,
{
    if k > 0 {
        lemma_satiation_sum_matches(fs, animals, k - 1);
    }
}

/// The rebuilt agent at `i` descends from the old agents at `pa` and
/// `pb`: its brain's gene sequence has their length, each gene stands
/// in the mutation relation to the corresponding gene of one parent's
/// brain, and whenever anything was eaten at all, both parents ate.
pub open spec fn parent_pair_s(
    olds: Seq<Animal>,
    news: Seq<Animal>,
    mutation: GaussianMutation,
    i: int,
    pa: int,
    pb: int,
) -> bool {
    &&& 0 <= pa < olds.len()
    &&& 0 <= pb < olds.len()
    &&& (satiation_sum_s(olds, olds.len() as int) > 0 ==> olds[pa].satiation > 0
        && olds[pb].satiation > 0)
    &&& net_genes_s(net_v(news[i].brain.nn)).len() == net_genes_s(net_v(olds[pa].brain.nn)).len()
    &&& net_genes_s(net_v(news[i].brain.nn)).len() == net_genes_s(net_v(olds[pb].brain.nn)).len()
    &&& forall|g: int|
        0 <= g < net_genes_s(net_v(news[i].brain.nn)).len() ==> mutation.gene_rel(
            net_genes_s(net_v(olds[pa].brain.nn))[g],
            #[trigger] net_genes_s(net_v(news[i].brain.nn))[g],
        ) || mutation.gene_rel(
            net_genes_s(net_v(olds[pb].brain.nn))[g],
            net_genes_s(net_v(news[i].brain.nn))[g],
        )
}

/// The rebuilt agent at `i` descends from some pair of parents of the
/// previous generation.
pub open spec fn descends_from_s(
    olds: Seq<Animal>,
    news: Seq<Animal>,
    mutation: GaussianMutation,
    i: int,
) -> bool {
    exists|pa: int, pb: int| parent_pair_s(olds, news, mutation, i, pa, pb)
}

#[derive(Debug)]
pub struct Simulation {
    pub world: World,
    pub ga: GeneticAlgorithm<RouletteWheelSelection, UniformCrossover, GaussianMutation>,
    pub age: i32,
    pub generation: i32,
}

pub open spec fn sim_wf_s(s: Simulation) -> bool {
    &&& world_wf_s(s.world)
    &&& 0 <= s.age
    &&& 0 <= s.generation
}

impl Simulation {
    /// A fresh simulation: a random world of the given sizes, every
    /// agent sharing one vision configuration, the stock genetic
    /// algorithm (roulette-wheel selection, uniform crossover, Gaussian
    /// mutation with chance 0.01 and coefficient 0.3), age and
    /// generation zero.
    pub fn random(
        rng: &mut rand::rngs::StdRng,
        animals: i32,
        foods: i32,
        fov_range: i64,
        fov_angle: i64,
        cells: usize,
    ) -> (r: Simulation)
        requires
            0 < fov_range <= 0x100_0000_0000,
            0 < fov_angle <= 65536,
            1 <= cells <= 65536,
        ensures
            sim_wf_s(r),
            r.age == 0,
            r.generation == 0,
            r.ga == (GeneticAlgorithm {
                selection: RouletteWheelSelection,
                crossover: UniformCrossover,
                mutation: GaussianMutation { chance: 655, coeff: 19661 },
            }),
            r.world.animals@.len() == if animals > 0 { animals as int } else { 0 },
            r.world.foods@.len() == if foods > 0 { foods as int } else { 0 },
            forall|i: int|
                0 <= i < r.world.animals@.len() ==> (#[trigger] r.world.animals@[i]).eye == (Eye {
                    fov_range,
                    fov_angle,
                    cells,
                }) && r.world.animals@[i].satiation == 0,
    {
        let world = World::random(rng, animals, foods, fov_range, fov_angle, cells);
        let ga = GeneticAlgorithm::new(
            RouletteWheelSelection,
            UniformCrossover,
            GaussianMutation::new(655, 19661),
        );
        Simulation { world, ga, age: 0, generation: 0 }
    }

    /// The current world, for a host to render or log.
    pub fn world(&self) -> (r: &World)
        ensures
            r == &self.world,
    {
        &self.world
    }

    /// Collision pass over a snapshot of the world: each agent's
    /// accumulator grows by the number of pellets it reaches, and every
    /// pellet reached by anyone respawns at a fresh random position.
    /// Nothing else changes.
    #[verifier::loop_isolation(false)]
    fn process_collisions(&mut self, rng: &mut rand::rngs::StdRng)
        requires
            sim_wf_s(*old(self)),
        ensures
            sim_wf_s(*final(self)),
            final(self).age == old(self).age,
            final(self).generation == old(self).generation,
            final(self).ga == old(self).ga,
            final(self).world.animals@.len() == old(self).world.animals@.len(),
            final(self).world.foods@.len() == old(self).world.foods@.len(),
            forall|i: int|
                0 <= i < old(self).world.animals@.len() ==> {
                    let a0 = old(self).world.animals@[i];
                    let a1 = #[trigger] final(self).world.animals@[i];
                    a1.position == a0.position && a1.rotation == a0.rotation && a1.speed
                        == a0.speed && a1.eye == a0.eye && a1.brain == a0.brain && a1.satiation
                        == sat_after_s(a0, old(self).world.foods@)
                },
            forall|j: int|
                0 <= j < old(self).world.foods@.len() ==> (if some_animal_eats_s(
                    old(self).world.animals@,
                    old(self).world.foods@[j],
                ) {
                    crate::vec2::vec2_wf_s((#[trigger] final(self).world.foods@[j]).position)
                } else {
                    final(self).world.foods@[j] == old(self).world.foods@[j]
                }),
    {
        let n: usize = self.world.animals.len();
        let m: usize = self.world.foods.len();
        let mut i: usize = 0;
        while i < n
            invariant
                i <= n,
                self.world.animals@.len() == n,
                self.world.foods@ == old(self).world.foods@,
                self.age == old(self).age,
                self.generation == old(self).generation,
                self.ga == old(self).ga,
                forall|k: int|
                    i <= k < n ==> #[trigger] self.world.animals@[k] == old(self).world.animals@[k],
                forall|k: int|
                    0 <= k < i ==> {
                        let a0 = old(self).world.animals@[k];
                        let a1 = #[trigger] self.world.animals@[k];
                        a1.position == a0.position && a1.rotation == a0.rotation && a1.speed
                            == a0.speed && a1.eye == a0.eye && a1.brain == a0.brain && a1.satiation
                            == sat_after_s(a0, old(self).world.foods@)
                    },
                forall|k: int| 0 <= k < n ==> animal_wf_s(#[trigger] self.world.animals@[k]),
            decreases n - i,
        {
            let a_pos: Vec2 = self.world.animals[i].position;
            let mut cnt: u64 = 0;
            let mut j: usize = 0;
            while j < m
                invariant
                    j <= m,
                    i < n,
                    a_pos == old(self).world.animals@[i as int].position,
                    cnt == eaten_prefix_s(
                        old(self).world.animals@[i as int],
                        old(self).world.foods@,
                        j as int,
                    ),
                    cnt <= j,
                decreases m - j,
            {
                let d: i64 = torus_dist(a_pos, self.world.foods[j].position);
                if d <= EAT_DISTANCE {
                    cnt = cnt + 1;
                }
                j = j + 1;
            }
            proof {
                lemma_eaten_prefix_bounds(
                    old(self).world.animals@[i as int],
                    old(self).world.foods@,
                    m as int,
                );
            }
            self.world.animals[i].add_satiation(cnt);
            i = i + 1;
        }
        let mut j: usize = 0;
        while j < m
            invariant
                j <= m,
                self.world.animals@.len() == n,
                self.world.foods@.len() == m,
                self.age == old(self).age,
                self.generation == old(self).generation,
                self.ga == old(self).ga,
                forall|k: int|
                    0 <= k < n ==> {
                        let a0 = old(self).world.animals@[k];
                        let a1 = #[trigger] self.world.animals@[k];
                        a1.position == a0.position && a1.rotation == a0.rotation && a1.speed
                            == a0.speed && a1.eye == a0.eye && a1.brain == a0.brain && a1.satiation
                            == sat_after_s(a0, old(self).world.foods@)
                    },
                forall|k: int| 0 <= k < n ==> animal_wf_s(#[trigger] self.world.animals@[k]),
                forall|k: int|
                    j <= k < m ==> #[trigger] self.world.foods@[k] == old(self).world.foods@[k],
                forall|k: int|
                    0 <= k < j ==> (if some_animal_eats_s(
                        old(self).world.animals@,
                        old(self).world.foods@[k],
                    ) {
                        crate::vec2::vec2_wf_s((#[trigger] self.world.foods@[k]).position)
                    } else {
                        self.world.foods@[k] == old(self).world.foods@[k]
                    }),
            decreases m - j,
        {
            let f_pos: Vec2 = self.world.foods[j].position;
            let mut eaten: bool = false;
            let mut t: usize = 0;
            while t < n
                invariant
                    t <= n,
                    j < m,
                    f_pos == old(self).world.foods@[j as int].position,
                    eaten == exists|k: int|
                        0 <= k < t && eats_s(
                            old(self).world.animals@[k],
                            old(self).world.foods@[j as int],
                        ),
                decreases n - t,
            {
                let d: i64 = torus_dist(self.world.animals[t].position, f_pos);
                if d <= EAT_DISTANCE {
                    proof {
                        assert(eats_s(
                            old(self).world.animals@[t as int],
                            old(self).world.foods@[j as int],
                        ));
                    }
                    eaten = true;
                }
                t = t + 1;
            }
            if eaten {
                let nf = Food::random(rng);
                self.world.foods.set(j, nf);
            }
            j = j + 1;
        }
    }

    /// Brain pass: each agent's vision is taken from the current
    /// pellets and its own position and heading, pushed through its
    /// network, and the two outputs, clamped to the per-tick
    /// acceleration limits, update its speed (clamped into
    /// [speed_min, speed_max]) and heading (wrapping around the
    /// circle).  Positions, pellets and accumulators stay as they are.
    #[verifier::loop_isolation(false)]
    fn process_brains(
        &mut self,
        speed_min: i64,
        speed_max: i64,
        speed_accel: i64,
        rotation_accel: i64,
    )
        requires
            sim_wf_s(*old(self)),
            speed_min <= speed_max,
            0 <= speed_accel,
            0 <= rotation_accel,
        ensures
            sim_wf_s(*final(self)),
            final(self).age == old(self).age,
            final(self).generation == old(self).generation,
            final(self).ga == old(self).ga,
            final(self).world.foods@ == old(self).world.foods@,
            final(self).world.animals@.len() == old(self).world.animals@.len(),
            forall|i: int|
                0 <= i < old(self).world.animals@.len() ==> {
                    let a0 = old(self).world.animals@[i];
                    let a1 = #[trigger] final(self).world.animals@[i];
                    let resp = brain_response_s(a0, old(self).world.foods@);
                    a1.position == a0.position && a1.eye == a0.eye && a1.brain == a0.brain
                        && a1.satiation == a0.satiation && a1.speed == clamp_s(
                        fp_add_s(
                            a0.speed as int,
                            clamp_s(resp[0], -speed_accel as int, speed_accel as int),
                        ),
                        speed_min as int,
                        speed_max as int,
                    ) && a1.rotation == wrap_unit_s(
                        a0.rotation + clamp_s(resp[1], -rotation_accel as int, rotation_accel as int),
                    )
                },
    {
        let n: usize = self.world.animals.len();
        let mut i: usize = 0;
        while i < n
            invariant
                i <= n,
                self.world.animals@.len() == n,
                self.world.foods@ == old(self).world.foods@,
                self.age == old(self).age,
                self.generation == old(self).generation,
                self.ga == old(self).ga,
                forall|k: int|
                    i <= k < n ==> #[trigger] self.world.animals@[k] == old(self).world.animals@[k],
                forall|k: int|
                    0 <= k < i ==> {
                        let a0 = old(self).world.animals@[k];
                        let a1 = #[trigger] self.world.animals@[k];
                        let resp = brain_response_s(a0, old(self).world.foods@);
                        a1.position == a0.position && a1.eye == a0.eye && a1.brain == a0.brain
                            && a1.satiation == a0.satiation && a1.speed == clamp_s(
                            fp_add_s(
                                a0.speed as int,
                                clamp_s(resp[0], -speed_accel as int, speed_accel as int),
                            ),
                            speed_min as int,
                            speed_max as int,
                        ) && a1.rotation == wrap_unit_s(
                            a0.rotation + clamp_s(
                                resp[1],
                                -rotation_accel as int,
                                rotation_accel as int,
                            ),
                        )
                    },
                forall|k: int| 0 <= k < n ==> animal_wf_s(#[trigger] self.world.animals@[k]),
            decreases n - i,
        {
            let eye: Eye = self.world.animals[i].eye;
            let position: Vec2 = self.world.animals[i].position;
            let rotation: i64 = self.world.animals[i].rotation;
            let speed: i64 = self.world.animals[i].speed;
            let vision: Vec<i64> = eye.process_vision(position, rotation, &self.world.foods);
            proof {
                let ls = net_v(self.world.animals@[i as int].brain.nn);
                assert(matches_topology_s(ls, brain_topo_s(eye.cells as int)));
                assert(brain_topo_s(eye.cells as int)[0] == eye.cells as int);
                lemma_matches_topology_wf(ls, brain_topo_s(eye.cells as int));
            }
            let response: Vec<i64> = self.world.animals[i].brain.nn.propagate(vision);
            proof {
                let a0 = old(self).world.animals@[i as int];
                let ls = net_v(a0.brain.nn);
                let vis = vision_s(a0.eye, a0.position, a0.rotation as int, old(self).world.foods@);
                lemma_net_out_len(ls, vis);
                lemma_net_out_bounded(ls, vis);
                assert(ls.last().len() == brain_topo_s(eye.cells as int)[2]);
                assert(ints_s(vision@) == vis);
                assert(ints_s(response@) == net_out_s(ls, vis));
                assert(ints_s(response@).len() == 2);
                assert(response@.len() == 2);
                assert(0 <= net_out_s(ls, vis)[1] <= 0x100_0000_0000);
                assert(response@[1] as int == ints_s(response@)[1]);
                assert(0 <= response@[1] as int <= 0x100_0000_0000);
            }
            let speed_delta: i64 = clamp_fp(response[0], -speed_accel, speed_accel);
            let rot_delta: i64 = clamp_fp(response[1], -rotation_accel, rotation_accel);
            proof {
                assert(0 <= rot_delta <= 0x100_0000_0000);
            }
            let new_speed: i64 = clamp_fp(fp_add(speed, speed_delta), speed_min, speed_max);
            let new_rot: i64 = wrap_unit(rotation + rot_delta);
            proof {
                let a0 = old(self).world.animals@[i as int];
                let resp = brain_response_s(a0, old(self).world.foods@);
                assert(response@[0] as int == resp[0]);
                assert(response@[1] as int == resp[1]);
            }
            self.world.animals[i].set_motion(new_speed, new_rot);
            i = i + 1;
        }
    }

    /// Motion pass: every agent advances by its speed along its
    /// heading, both coordinates wrapping back into the torus.
    #[verifier::loop_isolation(false)]
    fn process_movements(&mut self)
        requires
            sim_wf_s(*old(self)),
        ensures
            sim_wf_s(*final(self)),
            final(self).age == old(self).age,
            final(self).generation == old(self).generation,
            final(self).ga == old(self).ga,
            final(self).world.foods@ == old(self).world.foods@,
            final(self).world.animals@.len() == old(self).world.animals@.len(),
            forall|i: int|
                0 <= i < old(self).world.animals@.len() ==> {
                    let a0 = old(self).world.animals@[i];
                    let a1 = #[trigger] final(self).world.animals@[i];
                    a1.rotation == a0.rotation && a1.speed == a0.speed && a1.eye == a0.eye
                        && a1.brain == a0.brain && a1.satiation == a0.satiation && a1.position.x
                        == wrap_unit_s(
                        fp_add_s(
                            a0.position.x as int,
                            fp_mul_s(a0.speed as int, cos_turns_s(a0.rotation as int)),
                        ),
                    ) && a1.position.y == wrap_unit_s(
                        fp_add_s(
                            a0.position.y as int,
                            fp_mul_s(a0.speed as int, sin_turns_s(a0.rotation as int)),
                        ),
                    )
                },
    {
        let n: usize = self.world.animals.len();
        let mut i: usize = 0;
        while i < n
            invariant
                i <= n,
                self.world.animals@.len() == n,
                self.world.foods@ == old(self).world.foods@,
                self.age == old(self).age,
                self.generation == old(self).generation,
                self.ga == old(self).ga,
                forall|k: int|
                    i <= k < n ==> #[trigger] self.world.animals@[k] == old(self).world.animals@[k],
                forall|k: int|
                    0 <= k < i ==> {
                        let a0 = old(self).world.animals@[k];
                        let a1 = #[trigger] self.world.animals@[k];
                        a1.rotation == a0.rotation && a1.speed == a0.speed && a1.eye == a0.eye
                            && a1.brain == a0.brain && a1.satiation == a0.satiation
                            && a1.position.x == wrap_unit_s(
                            fp_add_s(
                                a0.position.x as int,
                                fp_mul_s(a0.speed as int, cos_turns_s(a0.rotation as int)),
                            ),
                        ) && a1.position.y == wrap_unit_s(
                            fp_add_s(
                                a0.position.y as int,
                                fp_mul_s(a0.speed as int, sin_turns_s(a0.rotation as int)),
                            ),
                        )
                    },
                forall|k: int| 0 <= k < n ==> animal_wf_s(#[trigger] self.world.animals@[k]),
            decreases n - i,
        {
            let position: Vec2 = self.world.animals[i].position;
            let rotation: i64 = self.world.animals[i].rotation;
            let speed: i64 = self.world.animals[i].speed;
            let dx: i64 = fp_mul(speed, cos_turns(rotation));
            let dy: i64 = fp_mul(speed, sin_turns(rotation));
            let nx: i64 = wrap_unit(fp_add(position.x, dx));
            let ny: i64 = wrap_unit(fp_add(position.y, dy));
            self.world.animals[i].set_position(Vec2 { x: nx, y: ny });
            i = i + 1;
        }
    }

    /// Generation boundary: project every agent to an individual
    /// (fitness = food eaten, chromosome = its brain's genes), evolve
    /// the population, rehydrate each child into a fresh agent with the
    /// shared vision configuration, reposition every pellet, and reset
    /// the age counter.  The population size never changes.
    #[verifier::loop_isolation(false)]
    fn evolve(
        &mut self,
        rng: &mut rand::rngs::StdRng,
        fov_range: i64,
        fov_angle: i64,
        cells: usize,
    )
        requires
            sim_wf_s(*old(self)),
            0 < fov_range <= 0x100_0000_0000,
            0 < fov_angle <= 65536,
            1 <= cells <= 65536,
            forall|i: int|
                0 <= i < old(self).world.animals@.len() ==> (#[trigger] old(self).world.animals@[i]).eye.cells == cells,
        ensures
            sim_wf_s(*final(self)),
            final(self).age == 0,
            final(self).generation == old(self).generation,
            final(self).ga == old(self).ga,
            final(self).world.animals@.len() == old(self).world.animals@.len(),
            final(self).world.foods@.len() == old(self).world.foods@.len(),
            forall|i: int|
                0 <= i < final(self).world.animals@.len() ==> (#[trigger] final(self).world.animals@[i]).satiation == 0 && final(self).world.animals@[i].eye == (Eye {
                    fov_range,
                    fov_angle,
                    cells,
                }) && final(self).world.animals@[i].speed == 131,
            forall|i: int|
                0 <= i < final(self).world.animals@.len() ==> descends_from_s(
                    old(self).world.animals@,
                    final(self).world.animals@,
                    old(self).ga.mutation,
                    i,
                ),
    {
        self.age = 0;
        let n: usize = self.world.animals.len();
        if n > 0 {
            let mut current: Vec<AnimalIndividual> = Vec::new();
            let mut i: usize = 0;
            while i < n
                invariant
                    i <= n,
                    self.world.animals@.len() == n,
                    current@.len() == i,
                    forall|k: int| 0 <= k < n ==> animal_wf_s(#[trigger] self.world.animals@[k]),
                    forall|k: int|
                        0 <= k < n ==> (#[trigger] self.world.animals@[k]).eye.cells == cells,
                    self.world.animals@ == old(self).world.animals@,
                    forall|k: int|
                        0 <= k < i ==> 0 <= (#[trigger] current@[k]).fitness <= 0x8000_0000,
                    forall|k: int|
                        0 <= k < i ==> (#[trigger] current@[k]).chromosome.genes@.len()
                            == brain_gene_count_s(cells as int),
                    forall|k: int|
                        0 <= k < i ==> ints_s((#[trigger] current@[k]).chromosome.genes@)
                            == net_genes_s(net_v(old(self).world.animals@[k].brain.nn)),
                    forall|k: int|
                        0 <= k < i ==> (#[trigger] current@[k]).fitness == old(
                            self,
                        ).world.animals@[k].satiation,
                decreases n - i,
            {
                let ind = AnimalIndividual::from_animal(&self.world.animals[i]);
                proof {
                    let a = self.world.animals@[i as int];
                    let topo = brain_topo_s(a.eye.cells as int);
                    assert(forall|t: int| 0 <= t < topo.len() ==> #[trigger] topo[t] >= 0);
                    lemma_net_genes_len(net_v(a.brain.nn), topo);
                    assert(ints_s(ind.chromosome.genes@).len() == ind.chromosome.genes@.len());
                }
                current.push(ind);
                i = i + 1;
            }
            proof {
                let fits = current@.map_values(|a: AnimalIndividual| a.fitness);
                assert(forall|k: int|
                    0 <= k < fits.len() ==> 0 <= #[trigger] fits[k] <= 0x8000_0000);
                lemma_fitness_sum_bound(fits, fits.len() as int, 0x8000_0000);
                assert((fits.len() as int) * 0x8000_0000 <= 0x7fff_ffff * 0x8000_0000)
                    by (nonlinear_arith)
                    requires
                        fits.len() <= 0x7fff_ffff,
                ;
            }
            let evolved: Vec<AnimalIndividual> = self.ga.evolve(rng, &current);
            let ghost evo0 = evolved@;
            let ghost gene_len = current@[0].chromosome.genes@.len() as int;
            let mut remaining: Vec<AnimalIndividual> = evolved;
            let mut new_animals: Vec<Animal> = Vec::new();
            proof {
                assert(remaining@ =~= evo0.skip(0));
            }
            while new_animals.len() < n
                invariant
                    new_animals@.len() + remaining@.len() == n,
                    gene_len == brain_gene_count_s(cells as int),
                    evo0.len() == n,
                    remaining@ == evo0.skip(new_animals@.len() as int),
                    forall|k: int|
                        0 <= k < remaining@.len() ==> (#[trigger] remaining@[k]).chromosome.genes@.len()
                            == gene_len,
                    forall|k: int|
                        0 <= k < new_animals@.len() ==> animal_wf_s(#[trigger] new_animals@[k])
                            && new_animals@[k].satiation == 0 && new_animals@[k].speed == 131
                            && new_animals@[k].eye == (Eye { fov_range, fov_angle, cells }),
                    forall|k: int|
                        0 <= k < new_animals@.len() ==> net_genes_s(
                            net_v((#[trigger] new_animals@[k]).brain.nn),
                        ) == ints_s(evo0[k].chromosome.genes@),
                decreases n - new_animals@.len(),
            {
                let ghost k0 = new_animals@.len() as int;
                proof {
                    assert(remaining@[0] == evo0.skip(k0)[0]);
                    assert(evo0.skip(k0)[0] == evo0[k0]);
                }
                let ind = remaining.remove(0);
                proof {
                    assert(ind == evo0[k0]);
                    assert(remaining@ =~= evo0.skip(k0 + 1));
                }
                match ind.into_animal(rng, fov_range, fov_angle, cells) {
                    Ok(a) => {
                        new_animals.push(a);
                    },
                    Err(_) => {
                        proof {
                            assert(false);
                        }
                    },
                }
            }
            self.world.animals = new_animals;
            proof {
                let olds = old(self).world.animals@;
                let news = self.world.animals@;
                let mutation = old(self).ga.mutation;
                let fits = current@.map_values(|a: AnimalIndividual| a.fitness);
                lemma_satiation_sum_matches(fits, olds, n as int);
                assert forall|i: int| 0 <= i < news.len() implies descends_from_s(
                    olds,
                    news,
                    mutation,
                    i,
                ) by {
                    assert(has_parents_s(mutation, current@, evo0[i]));
                    let (pa, pb) = choose|pa: int, pb: int|
                        evolved_child_s(mutation, current@, evo0[i], pa, pb);
                    assert(evolved_child_s(mutation, current@, evo0[i], pa, pb));
                    assert(net_genes_s(net_v(news[i].brain.nn)) == ints_s(
                        evo0[i].chromosome.genes@,
                    ));
                    assert(ints_s(current@[pa].chromosome.genes@) == net_genes_s(
                        net_v(olds[pa].brain.nn),
                    ));
                    assert(ints_s(current@[pb].chromosome.genes@) == net_genes_s(
                        net_v(olds[pb].brain.nn),
                    ));
                    assert forall|g: int|
                        0 <= g < net_genes_s(net_v(news[i].brain.nn)).len() implies mutation.gene_rel(
                        net_genes_s(net_v(olds[pa].brain.nn))[g],
                        #[trigger] net_genes_s(net_v(news[i].brain.nn))[g],
                    ) || mutation.gene_rel(
                        net_genes_s(net_v(olds[pb].brain.nn))[g],
                        net_genes_s(net_v(news[i].brain.nn))[g],
                    ) by {
                        assert(net_genes_s(net_v(news[i].brain.nn))[g] == evo0[
                            i
                        ].chromosome.genes@[g] as int);
                        assert(net_genes_s(net_v(olds[pa].brain.nn))[g] == current@[
                            pa
                        ].chromosome.genes@[g] as int);
                        assert(net_genes_s(net_v(olds[pb].brain.nn))[g] == current@[
                            pb
                        ].chromosome.genes@[g] as int);
                        assert(mutation.gene_rel(
                            current@[pa].chromosome.genes@[g] as int,
                            evo0[i].chromosome.genes@[g] as int,
                        ) || mutation.gene_rel(
                            current@[pb].chromosome.genes@[g] as int,
                            evo0[i].chromosome.genes@[g] as int,
                        ));
                    };
                    assert(parent_pair_s(olds, news, mutation, i, pa, pb));
                    assert(descends_from_s(olds, news, mutation, i));
                };
            }
        }
        let ghost animals_after = self.world.animals@;
        proof {
            assert(animals_after.len() == old(self).world.animals@.len());
            assert(forall|k: int|
                0 <= k < animals_after.len() ==> animal_wf_s(#[trigger] animals_after[k])
                    && animals_after[k].satiation == 0 && animals_after[k].speed == 131
                    && animals_after[k].eye == (Eye { fov_range, fov_angle, cells }));
        }
        let m: usize = self.world.foods.len();
        let mut j: usize = 0;
        while j < m
            invariant
                j <= m,
                self.world.foods@.len() == m,
                m == old(self).world.foods@.len(),
                self.world.animals@ == animals_after,
                self.age == 0,
                self.generation == old(self).generation,
                self.ga == old(self).ga,
                forall|k: int|
                    0 <= k < m ==> crate::vec2::vec2_wf_s(
                        (#[trigger] self.world.foods@[k]).position,
                    ),
            decreases m - j,
        {
            let nf = Food::random(rng);
            self.world.foods.set(j, nf);
            j = j + 1;
        }
    }

    /// One tick: collisions on the snapshot, brain decisions, motion,
    /// then the age counter; past `generation_length` the generation
    /// counter steps and the population evolves.
    pub fn step(
        &mut self,
        rng: &mut rand::rngs::StdRng,
        speed_min: i64,
        speed_max: i64,
        speed_accel: i64,
        rotation_accel: i64,
        generation_length: i32,
        fov_range: i64,
        fov_angle: i64,
        cells: usize,
    )
        requires
            sim_wf_s(*old(self)),
            speed_min <= speed_max,
            0 <= speed_accel,
            0 <= rotation_accel,
            0 < fov_range <= 0x100_0000_0000,
            0 < fov_angle <= 65536,
            1 <= cells <= 65536,
            forall|i: int|
                0 <= i < old(self).world.animals@.len() ==> (#[trigger] old(self).world.animals@[i]).eye.cells == cells,
            old(self).age < 0x7fff_ffff,
            old(self).generation < 0x7fff_ffff,
        ensures
            sim_wf_s(*final(self)),
            final(self).world.animals@.len() == old(self).world.animals@.len(),
            final(self).world.foods@.len() == old(self).world.foods@.len(),
            old(self).age + 1 > generation_length ==> final(self).age == 0 && final(self).generation == old(self).generation + 1 && forall|i: int|
                0 <= i < final(self).world.animals@.len() ==> (#[trigger] final(self).world.animals@[i]).satiation == 0 && final(self).world.animals@[i].speed == 131
                    && final(self).world.animals@[i].eye == (Eye { fov_range, fov_angle, cells }),
            old(self).age + 1 <= generation_length ==> final(self).age == old(self).age + 1
                && final(self).generation == old(self).generation && forall|i: int|
                0 <= i < final(self).world.animals@.len() ==> {
                    let a0 = old(self).world.animals@[i];
                    let a1 = #[trigger] final(self).world.animals@[i];
                    let resp = net_out_s(
                        net_v(a0.brain.nn),
                        vision_s(a0.eye, a0.position, a0.rotation as int, final(self).world.foods@),
                    );
                    &&& a1.satiation == sat_after_s(a0, old(self).world.foods@)
                    &&& a1.eye == a0.eye
                    &&& a1.brain == a0.brain
                    &&& a1.speed == clamp_s(
                        fp_add_s(
                            a0.speed as int,
                            clamp_s(resp[0], -speed_accel as int, speed_accel as int),
                        ),
                        speed_min as int,
                        speed_max as int,
                    )
                    &&& a1.rotation == wrap_unit_s(
                        a0.rotation + clamp_s(resp[1], -rotation_accel as int, rotation_accel as int),
                    )
                    &&& a1.position.x == wrap_unit_s(
                        fp_add_s(
                            a0.position.x as int,
                            fp_mul_s(a1.speed as int, cos_turns_s(a1.rotation as int)),
                        ),
                    )
                    &&& a1.position.y == wrap_unit_s(
                        fp_add_s(
                            a0.position.y as int,
                            fp_mul_s(a1.speed as int, sin_turns_s(a1.rotation as int)),
                        ),
                    )
                },
            old(self).age + 1 <= generation_length ==> forall|j: int|
                0 <= j < old(self).world.foods@.len() ==> (if some_animal_eats_s(
                    old(self).world.animals@,
                    old(self).world.foods@[j],
                ) {
                    crate::vec2::vec2_wf_s((#[trigger] final(self).world.foods@[j]).position)
                } else {
                    final(self).world.foods@[j] == old(self).world.foods@[j]
                }),
    {
        self.process_collisions(rng);
        let ghost s1 = *self;
        self.process_brains(speed_min, speed_max, speed_accel, rotation_accel);
        let ghost s2 = *self;
        self.process_movements();
        let ghost s3 = *self;
        self.age = self.age + 1;
        if self.age > generation_length {
            self.generation = self.generation + 1;
            self.evolve(rng, fov_range, fov_angle, cells);
        } else {
            proof {
                assert forall|i: int| 0 <= i < old(self).world.animals@.len() implies {
                    let a0 = old(self).world.animals@[i];
                    let a1 = #[trigger] self.world.animals@[i];
                    let resp = net_out_s(
                        net_v(a0.brain.nn),
                        vision_s(a0.eye, a0.position, a0.rotation as int, self.world.foods@),
                    );
                    &&& a1.satiation == sat_after_s(a0, old(self).world.foods@)
                    &&& a1.eye == a0.eye
                    &&& a1.brain == a0.brain
                    &&& a1.speed == clamp_s(
                        fp_add_s(
                            a0.speed as int,
                            clamp_s(resp[0], -speed_accel as int, speed_accel as int),
                        ),
                        speed_min as int,
                        speed_max as int,
                    )
                    &&& a1.rotation == wrap_unit_s(
                        a0.rotation + clamp_s(resp[1], -rotation_accel as int, rotation_accel as int),
                    )
                    &&& a1.position.x == wrap_unit_s(
                        fp_add_s(
                            a0.position.x as int,
                            fp_mul_s(a1.speed as int, cos_turns_s(a1.rotation as int)),
                        ),
                    )
                    &&& a1.position.y == wrap_unit_s(
                        fp_add_s(
                            a0.position.y as int,
                            fp_mul_s(a1.speed as int, sin_turns_s(a1.rotation as int)),
                        ),
                    )
                } by {
                    let a0 = old(self).world.animals@[i];
                    let b1 = s1.world.animals@[i];
                    let b2 = s2.world.animals@[i];
                    let b3 = s3.world.animals@[i];
                    assert(b1.position == a0.position && b1.rotation == a0.rotation && b1.speed
                        == a0.speed && b1.eye == a0.eye && b1.brain == a0.brain);
                    assert(self.world.foods@ == s1.world.foods@);
                    assert(brain_response_s(b1, s1.world.foods@) == net_out_s(
                        net_v(a0.brain.nn),
                        vision_s(a0.eye, a0.position, a0.rotation as int, self.world.foods@),
                    ));
                    assert(b3.position.x == wrap_unit_s(
                        fp_add_s(
                            b2.position.x as int,
                            fp_mul_s(b2.speed as int, cos_turns_s(b2.rotation as int)),
                        ),
                    ));
                    assert(self.world.animals@[i] == b3);
                };
            }
        }
    }
}

} // verus!
