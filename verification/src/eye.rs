//! The vision sensor: turns an agent's position, heading and the food
//! set into a fixed-length energy vector, one entry per angular sector.
//!
//! The field of view spans `fov_angle` (in turns), centered on the
//! heading, split into `cells` equal sectors.  A visible food adds
//! `(fov_range - distance) / fov_range` (fixed point: 1.0 at distance 0,
//! 0 at the range edge) to the sector holding its bearing; foods at or
//! beyond `fov_range`, or outside the angular span, add nothing.

use vstd::prelude::*;
use crate::fixed::{fp_add, fp_add_s};
use crate::food::Food;
use crate::trig::{atan2_turns, atan2_turns_s};
use crate::vec2::{Vec2, vec2_wf_s, torus_delta, torus_delta_s, torus_dist, torus_dist_s};
use vstd::arithmetic::div_mod::{
    lemma_div_is_ordered, lemma_div_by_multiple, lemma_div_pos_is_pos,
};

verus! {

#[derive(Debug, Clone, Copy, PartialEq, Eq, Structural)]
pub struct Eye {
    /// Maximum sensing distance, fixed point, in (0, CLIP].
    pub fov_range: i64,
    /// Total angular width of the field of view, in turns, in (0, SCALE].
    pub fov_angle: i64,
    /// Number of angular sectors.
    pub cells: usize,
}

/// The configuration bounds every sensor needs: a positive range (kept
/// within the saturation bound), a positive span of at most one turn,
/// and at least one sector (kept small enough that sector arithmetic
/// stays exact).
pub open spec fn eye_wf_s(e: Eye) -> bool {
    &&& 0 < e.fov_range <= 0x100_0000_0000
    &&& 0 < e.fov_angle <= 65536
    &&& 1 <= e.cells <= 65536
}

/// Energy a single food contributes if it is visible: full scale at
/// distance zero, falling linearly to zero at `fov_range`.
pub open spec fn food_energy_s(e: Eye, pos: Vec2, food: Food) -> int {
    let d = torus_dist_s(pos, food.position);
    ((e.fov_range - d) * 65536) / (e.fov_range as int)
}

/// The food's bearing relative to the heading, folded into
/// (-SCALE/2, SCALE/2].
pub open spec fn rel_bearing_s(pos: Vec2, heading: int, food: Food) -> int {
    let dx = torus_delta_s(pos.x as int, food.position.x as int);
    let dy = torus_delta_s(pos.y as int, food.position.y as int);
    let b = atan2_turns_s(dy, dx);
    let rel0 = (b - heading) % 65536;
    if rel0 > 32768 {
        rel0 - 65536
    } else {
        rel0
    }
}

/// Whether a food registers at all: strictly inside the range and
/// within half the angular span on either side of the heading.
pub open spec fn food_visible_s(e: Eye, pos: Vec2, heading: int, food: Food) -> bool {
    &&& torus_dist_s(pos, food.position) < e.fov_range
    &&& -(e.fov_angle as int / 2) <= rel_bearing_s(pos, heading, food)
    &&& rel_bearing_s(pos, heading, food) <= e.fov_angle as int / 2
}

/// The sector a visible food falls into.
pub open spec fn food_cell_s(e: Eye, pos: Vec2, heading: int, food: Food) -> int {
    let rel = rel_bearing_s(pos, heading, food);
    let c = ((rel + e.fov_angle / 2) * e.cells) / (e.fov_angle as int);
    if c >= e.cells {
        e.cells - 1
    } else {
        c
    }
}

/// Add one food's contribution to the accumulated sector energies.
pub open spec fn add_food_s(acc: Seq<int>, e: Eye, pos: Vec2, heading: int, food: Food) -> Seq<
    int,
> {
    if food_visible_s(e, pos, heading, food) {
        let c = food_cell_s(e, pos, heading, food);
        acc.update(c, fp_add_s(acc[c], food_energy_s(e, pos, food)))
    } else {
        acc
    }
}

/// Sector energies after the first `k` foods.
pub open spec fn vision_prefix_s(e: Eye, pos: Vec2, heading: int, foods: Seq<Food>, k: int) -> Seq<
    int,
>
    decreases k,
{
    if k <= 0 {
        Seq::new(e.cells as nat, |i: int| 0int)
    } else {
        add_food_s(vision_prefix_s(e, pos, heading, foods, k - 1), e, pos, heading, foods[k - 1])
    }
}

/// The whole sensor reading: every food's contribution accumulated.
pub open spec fn vision_s(e: Eye, pos: Vec2, heading: int, foods: Seq<Food>) -> Seq<int> {
    vision_prefix_s(e, pos, heading, foods, foods.len() as int)
}

/// A food at or beyond `fov_range` contributes nothing.
pub proof fn lemma_food_beyond_range(acc: Seq<int>, e: Eye, pos: Vec2, heading: int, food: Food)
    requires
        torus_dist_s(pos, food.position) >= e.fov_range,
    ensures
        add_food_s(acc, e, pos, heading, food) == acc,
{
}

/// A food whose bearing falls outside the angular span contributes
/// nothing.
pub proof fn lemma_food_outside_angle(acc: Seq<int>, e: Eye, pos: Vec2, heading: int, food: Food)
    requires
        rel_bearing_s(pos, heading, food) < -(e.fov_angle as int / 2) || rel_bearing_s(
            pos,
            heading,
            food,
        ) > e.fov_angle as int / 2,
    ensures
        add_food_s(acc, e, pos, heading, food) == acc,
{
}

/// A visible food at distance zero contributes exactly full scale (1.0),
/// with no division blow-up.
pub proof fn lemma_food_at_zero_distance(e: Eye, pos: Vec2, food: Food)
    requires
        eye_wf_s(e),
        torus_dist_s(pos, food.position) == 0,
    ensures
        food_energy_s(e, pos, food) == 65536,
{
    lemma_div_by_multiple(65536, e.fov_range as int);
    assert((e.fov_range as int) * 65536 == 65536 * (e.fov_range as int)) by (nonlinear_arith);
}

/// A visible food's energy never exceeds full scale and never goes
/// negative.
pub proof fn lemma_food_energy_bounds(e: Eye, pos: Vec2, food: Food)
    requires
        eye_wf_s(e),
        0 <= torus_dist_s(pos, food.position) < e.fov_range,
    ensures
        0 <= food_energy_s(e, pos, food) <= 65536,
{
    let d = torus_dist_s(pos, food.position);
    let num = (e.fov_range - d) * 65536;
    assert(num >= 0) by (nonlinear_arith)
        requires
            d < e.fov_range,
            num == (e.fov_range - d) * 65536,
    ;
    lemma_div_pos_is_pos(num, e.fov_range as int);
    assert(num <= 65536 * (e.fov_range as int)) by (nonlinear_arith)
        requires
            0 <= d,
            num == (e.fov_range - d) * 65536,
    ;
    lemma_div_is_ordered(num, 65536 * (e.fov_range as int), e.fov_range as int);
    lemma_div_by_multiple(65536, e.fov_range as int);
    assert((e.fov_range as int) * 65536 == 65536 * (e.fov_range as int)) by (nonlinear_arith);
}

/// With a sensing range of at most one unit, a food strictly inside the
/// range contributes strictly positive energy.  (A range above one unit
/// can make a sub-resolution remainder truncate to zero: a limit of the
/// fixed-point resolution, not of the sensor.)
pub proof fn lemma_food_energy_positive(e: Eye, pos: Vec2, food: Food)
    requires
        eye_wf_s(e),
        e.fov_range <= 65536,
        0 <= torus_dist_s(pos, food.position) < e.fov_range,
    ensures
        food_energy_s(e, pos, food) > 0,
{
    let d = torus_dist_s(pos, food.position);
    let num = (e.fov_range - d) * 65536;
    assert(num >= 65536) by (nonlinear_arith)
        requires
            num == (e.fov_range - d) * 65536,
            e.fov_range - d >= 1,
    ;
    lemma_div_is_ordered(e.fov_range as int, num, e.fov_range as int);
    vstd::arithmetic::div_mod::lemma_div_by_self(e.fov_range as int);
}

impl Eye {
    /// A sensor with the given field of view.
    pub fn new(fov_range: i64, fov_angle: i64, cells: usize) -> (r: Eye)
        requires
            0 < fov_range <= 0x100_0000_0000,
            0 < fov_angle <= 65536,
            1 <= cells <= 65536,
        ensures
            r == (Eye { fov_range, fov_angle, cells }),
            eye_wf_s(r),
    {
        Eye { fov_range, fov_angle, cells }
    }

    /// Read the sensor: the per-sector energies seen from `position`
    /// looking along `heading`.
    pub fn process_vision(&self, position: Vec2, heading: i64, foods: &Vec<Food>) -> (r: Vec<i64>)
        requires
            eye_wf_s(*self),
            vec2_wf_s(position),
            0 <= heading < 65536,
            forall|i: int| 0 <= i < foods@.len() ==> vec2_wf_s((#[trigger] foods@[i]).position),
        ensures
            r@.len() == self.cells,
            crate::neuron::ints_s(r@) == vision_s(*self, position, heading as int, foods@),
    {
        let mut acc: Vec<i64> = Vec::new();
        let mut z: usize = 0;
        while z < self.cells
            invariant
                z <= self.cells,
                acc@.len() == z,
                forall|i: int| 0 <= i < z ==> #[trigger] acc@[i] == 0,
            decreases self.cells - z,
        {
            acc.push(0);
            z = z + 1;
        }
        proof {
            assert(crate::neuron::ints_s(acc@) =~= vision_prefix_s(
                *self,
                position,
                heading as int,
                foods@,
                0,
            ));
        }
        let mut fi: usize = 0;
        while fi < foods.len()
            invariant
                fi <= foods@.len(),
                eye_wf_s(*self),
                vec2_wf_s(position),
                0 <= heading < 65536,
                forall|i: int| 0 <= i < foods@.len() ==> vec2_wf_s((#[trigger] foods@[i]).position),
                acc@.len() == self.cells,
                crate::neuron::ints_s(acc@) == vision_prefix_s(
                    *self,
                    position,
                    heading as int,
                    foods@,
                    fi as int,
                ),
            decreases foods@.len() - fi,
        {
            let ghost pre = crate::neuron::ints_s(acc@);
            let food = foods[fi];
            let d: i64 = torus_dist(position, food.position);
            if d < self.fov_range {
                let dx: i64 = torus_delta(position.x, food.position.x);
                let dy: i64 = torus_delta(position.y, food.position.y);
                let b: i64 = atan2_turns(dy, dx);
                let rel0: i64 = if b >= heading {
                    b - heading
                } else {
                    b - heading + 65536
                };
                proof {
                    assert(rel0 == (b - heading) % 65536) by (nonlinear_arith)
                        requires
                            0 <= b < 65536,
                            0 <= heading < 65536,
                            rel0 == if b >= heading { b - heading } else { b - heading + 65536int },
                    ;
                }
                let rel: i64 = if rel0 > 32768 {
                    rel0 - 65536
                } else {
                    rel0
                };
                let half: i64 = ((self.fov_angle as u64) / 2) as i64;
                if -half <= rel && rel <= half {
                    proof {
                        assert((rel + half) * (self.cells as int) >= 0) by (nonlinear_arith)
                            requires
                                rel + half >= 0,
                                self.cells >= 1,
                        ;
                        assert((rel + half) * (self.cells as int) <= 131072 * 65536)
                            by (nonlinear_arith)
                            requires
                                rel + half <= 131072,
                                1 <= self.cells <= 65536,
                        ;
                    }
                    let c0: u64 = (((rel + half) as u64) * (self.cells as u64)) / (
                    self.fov_angle as u64);
                    let cell: usize = if c0 >= self.cells as u64 {
                        self.cells - 1
                    } else {
                        c0 as usize
                    };
                    proof {
                        assert((self.fov_range - d) * 65536 >= 0) by (nonlinear_arith)
                            requires
                                d < self.fov_range,
                        ;
                        assert((self.fov_range - d) * 65536 <= 0x100_0000_0000 * 65536)
                            by (nonlinear_arith)
                            requires
                                0 <= d,
                                self.fov_range <= 0x100_0000_0000,
                        ;
                    }
                    proof {
                        vstd::arithmetic::div_mod::lemma_div_nonincreasing(
                            (self.fov_range - d) as int * 65536,
                            self.fov_range as int,
                        );
                    }
                    let energy: i64 = ((((self.fov_range - d) as u64) * 65536) / (
                    self.fov_range as u64)) as i64;
                    proof {
                        lemma_div_pos_is_pos((self.fov_range - d) as int * 65536,
                            self.fov_range as int);
                        assert(food_visible_s(*self, position, heading as int, food));
                        assert(cell == food_cell_s(*self, position, heading as int, food));
                        assert(energy == food_energy_s(*self, position, food));
                    }
                    let updated: i64 = fp_add(acc[cell], energy);
                    acc.set(cell, updated);
                    proof {
                        assert(crate::neuron::ints_s(acc@) =~= add_food_s(
                            pre,
                            *self,
                            position,
                            heading as int,
                            food,
                        ));
                    }
                } else {
                    proof {
                        assert(!food_visible_s(*self, position, heading as int, food));
                    }
                }
            } else {
                proof {
                    assert(!food_visible_s(*self, position, heading as int, food));
                }
            }
            proof {
                assert(foods@[fi as int] == food);
                assert(crate::neuron::ints_s(acc@) == vision_prefix_s(
                    *self,
                    position,
                    heading as int,
                    foods@,
                    fi as int + 1,
                ));
            }
            fi = fi + 1;
        }
        acc
    }
}

} // verus!
