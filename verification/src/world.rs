//! The world: the agents and the food pellets, owned exclusively by the
//! simulation.

use vstd::prelude::*;
use crate::animal::{Animal, animal_wf_s};
use crate::eye::Eye;
use crate::food::Food;
use crate::vec2::vec2_wf_s;

verus! {

#[derive(Debug)]
pub struct World {
    pub animals: Vec<Animal>,
    pub foods: Vec<Food>,
}

/// Every agent and pellet is well formed, and both counts stay small
/// enough for fitness sums and index arithmetic to be exact.
pub open spec fn world_wf_s(w: World) -> bool {
    &&& forall|i: int| 0 <= i < w.animals@.len() ==> animal_wf_s(#[trigger] w.animals@[i])
    &&& forall|i: int| 0 <= i < w.foods@.len() ==> vec2_wf_s((#[trigger] w.foods@[i]).position)
    &&& w.animals@.len() <= 0x7fff_ffff
    &&& w.foods@.len() <= 0x7fff_ffff
}

impl World {
    /// A fresh world: the given number of random agents, all sharing
    /// one vision configuration, and the given number of random
    /// pellets.  Non-positive counts give an empty population, as
    /// counting up from zero would.
    pub fn random(
        rng: &mut rand::rngs::StdRng,
        animals: i32,
        foods: i32,
        fov_range: i64,
        fov_angle: i64,
        cells: usize,
    ) -> (r: World)
        requires
            0 < fov_range <= 0x100_0000_0000,
            0 < fov_angle <= 65536,
            1 <= cells <= 65536,
        ensures
            world_wf_s(r),
            r.animals@.len() == if animals > 0 { animals as int } else { 0 },
            r.foods@.len() == if foods > 0 { foods as int } else { 0 },
            forall|i: int|
                0 <= i < r.animals@.len() ==> (#[trigger] r.animals@[i]).eye == (Eye {
                    fov_range,
                    fov_angle,
                    cells,
                }) && r.animals@[i].satiation == 0,
    {
        let mut built_animals: Vec<Animal> = Vec::new();
        let mut i: i32 = 0;
        while i < animals
            invariant
                0 <= i,
                animals > 0 ==> i <= animals,
                animals <= 0 ==> i == 0,
                built_animals@.len() == i,
                0 < fov_range <= 0x100_0000_0000,
                0 < fov_angle <= 65536,
                1 <= cells <= 65536,
                forall|k: int|
                    0 <= k < built_animals@.len() ==> animal_wf_s(#[trigger] built_animals@[k])
                        && built_animals@[k].eye == (Eye { fov_range, fov_angle, cells })
                        && built_animals@[k].satiation == 0,
            decreases animals - i,
        {
            let a = Animal::random(rng, fov_range, fov_angle, cells);
            built_animals.push(a);
            i = i + 1;
        }
        let mut built_foods: Vec<Food> = Vec::new();
        let mut j: i32 = 0;
        while j < foods
            invariant
                0 <= j,
                foods > 0 ==> j <= foods,
                foods <= 0 ==> j == 0,
                built_foods@.len() == j,
                forall|k: int|
                    0 <= k < built_foods@.len() ==> vec2_wf_s(
                        (#[trigger] built_foods@[k]).position,
                    ),
            decreases foods - j,
        {
            let f = Food::random(rng);
            built_foods.push(f);
            j = j + 1;
        }
        World { animals: built_animals, foods: built_foods }
    }

    pub fn animals(&self) -> (r: &Vec<Animal>)
        ensures
            r == &self.animals,
    {
        &self.animals
    }

    pub fn foods(&self) -> (r: &Vec<Food>)
        ensures
            r == &self.foods,
    {
        &self.foods
    }
}

} // verus!
