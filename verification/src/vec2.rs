//! Points on the unit torus.
//!
//! A coordinate is a fixed-point value in [0, SCALE): the world wraps
//! modulo 1.0 on each axis.  The relative vector between two points takes
//! the shortest wraparound path per axis, so each component lies in
//! (-SCALE/2, SCALE/2].

use vstd::prelude::*;
use crate::fixed::{wrap_unit_s, sqrt_floor, isqrt};

verus! {

#[derive(Debug, Clone, Copy, PartialEq, Eq, Structural)]
pub struct Vec2 {
    pub x: i64,
    pub y: i64,
}

/// Both coordinates lie on the torus.
pub open spec fn vec2_wf_s(p: Vec2) -> bool {
    0 <= p.x < 65536 && 0 <= p.y < 65536
}

/// The shortest signed difference from `a` to `b` on one wrapping axis.
pub open spec fn torus_delta_s(a: int, b: int) -> int {
    let d = wrap_unit_s(b - a);
    if d > 32768 {
        d - 65536
    } else {
        d
    }
}

/// The torus-wrapped Euclidean distance between two points, rounded
/// down to a whole fixed-point unit.
pub open spec fn torus_dist_s(p: Vec2, q: Vec2) -> int {
    let dx = torus_delta_s(p.x as int, q.x as int);
    let dy = torus_delta_s(p.y as int, q.y as int);
    sqrt_floor((dx * dx + dy * dy) as nat) as int
}

pub fn torus_delta(a: i64, b: i64) -> (r: i64)
    requires
        0 <= a < 65536,
        0 <= b < 65536,
    ensures
        r == torus_delta_s(a as int, b as int),
        -32768 < r <= 32768,
{
    let d: i64 = if b >= a {
        b - a
    } else {
        b - a + 65536
    };
    proof {
        assert(d == wrap_unit_s(b as int - a as int)) by (nonlinear_arith)
            requires
                0 <= a < 65536,
                0 <= b < 65536,
                d == if b >= a { b - a } else { b - a + 65536int },
        ;
    }
    if d > 32768 {
        d - 65536
    } else {
        d
    }
}

pub fn torus_dist(p: Vec2, q: Vec2) -> (r: i64)
    requires
        vec2_wf_s(p),
        vec2_wf_s(q),
    ensures
        r == torus_dist_s(p, q),
        0 <= r <= 46341,
{
    let dx: i64 = torus_delta(p.x, q.x);
    let dy: i64 = torus_delta(p.y, q.y);
    proof {
        assert(dx * dx >= 0 && dx * dx <= 32768 * 32768) by (nonlinear_arith)
            requires
                -32768 <= dx <= 32768,
        ;
        assert(dy * dy >= 0 && dy * dy <= 32768 * 32768) by (nonlinear_arith)
            requires
                -32768 <= dy <= 32768,
        ;
    }
    let n: u64 = (dx * dx) as u64 + (dy * dy) as u64;
    let r: u64 = isqrt(n);
    proof {
        assert((r * r) as int <= n < 46342 * 46342);
        assert(r < 46342) by (nonlinear_arith)
            requires
                r * r < 46342 * 46342,
        ;
    }
    r as i64
}

} // verus!
