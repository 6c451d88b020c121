//! A food pellet: a point on the torus, repositioned uniformly at random
//! whenever it is eaten and at every generation boundary.

use vstd::prelude::*;
use crate::vec2::{Vec2, vec2_wf_s};
use crate::rng::gen_range_i64;

verus! {

#[derive(Debug, Clone, Copy, PartialEq, Eq, Structural)]
pub struct Food {
    pub position: Vec2,
}

impl Food {
    /// A pellet at a fresh uniformly random position on the torus.
    pub fn random(rng: &mut rand::rngs::StdRng) -> (r: Food)
        ensures
            vec2_wf_s(r.position),
    {
        let x: i64 = gen_range_i64(rng, 0, 65535);
        let y: i64 = gen_range_i64(rng, 0, 65535);
        Food { position: Vec2 { x, y } }
    }

    pub fn position(&self) -> (r: Vec2)
        ensures
            r == self.position,
    {
        self.position
    }
}

} // verus!
