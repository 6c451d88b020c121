//! Fixed-point trigonometry over angles measured in turns.
//!
//! A full revolution is `SCALE` raw units, so angle wrap-around is the same
//! Euclidean remainder used for torus coordinates.  `sin_turns` uses a
//! rational half-wave approximation, `atan2_turns` an octant-reduced
//! rational arctangent; both are exact fixed-point integer computations,
//! specified definitionally and bounded by proved range lemmas.

use vstd::prelude::*;
use vstd::arithmetic::div_mod::{
    lemma_div_is_ordered, lemma_div_by_multiple, lemma_div_pos_is_pos,
    lemma_div_multiples_vanish_fancy,
};

verus! {

/// Quotient bound: if `a <= c * d` then `a / d <= c` (all non-negative).
proof fn lemma_div_bound(a: int, c: int, d: int)
    requires
        0 <= a,
        0 <= c,
        0 < d,
        a <= c * d,
    ensures
        a / d <= c,
{
    lemma_div_is_ordered(a, c * d, d);
    lemma_div_by_multiple(c, d);
}

/// Strict quotient bound: if `a < (c + 1) * d` then `a / d <= c`.
proof fn lemma_div_bound_strict(a: int, c: int, d: int)
    requires
        0 <= a,
        0 <= c,
        0 < d,
        a < (c + 1) * d,
    ensures
        a / d <= c,
{
    assert((c + 1) * d == d * c + d) by (nonlinear_arith);
    lemma_div_is_ordered(a, d * c + (d - 1), d);
    lemma_div_multiples_vanish_fancy(c, d - 1, d);
}

/// Half-wave sine: for `t` in [0, SCALE/2] (half a turn), the scaled value
/// of sin(pi * t / (SCALE/2)), by the rational approximation
/// 16 x (1 - x) / (5 - 4 x (1 - x)) with x the fraction of the half turn.
pub open spec fn half_sin_s(t: int) -> int {
    let x = 2 * t;
    let p = (x * (65536 - x)) / 65536;
    (16 * p * 65536) / (5 * 65536 - 4 * p)
}

/// Sine of an angle in turns, scaled by SCALE: 0 at 0, SCALE at a quarter
/// turn, 0 at half a turn, -SCALE at three quarters.
pub open spec fn sin_turns_s(t: int) -> int {
    if t < 32768 {
        half_sin_s(t)
    } else {
        -half_sin_s(t - 32768)
    }
}

/// Cosine of an angle in turns, scaled by SCALE: sine a quarter turn ahead.
pub open spec fn cos_turns_s(t: int) -> int {
    sin_turns_s((t + 16384) % 65536)
}

proof fn lemma_half_sin_bounds(t: int)
    requires
        0 <= t <= 32768,
    ensures
        0 <= half_sin_s(t) <= 65536,
{
    let x = 2 * t;
    let prod = x * (65536 - x);
    assert(0 <= prod && prod <= 16384 * 65536) by (nonlinear_arith)
        requires
            0 <= x <= 65536,
            prod == x * (65536 - x),
    ;
    let p = prod / 65536;
    lemma_div_pos_is_pos(prod, 65536);
    lemma_div_bound(prod, 16384, 65536);
    assert(0 <= p <= 16384);
    let num = 16 * p * 65536;
    let den = 5 * 65536 - 4 * p;
    assert(den >= 65536);
    assert(num >= 0);
    assert(num <= 65536 * den) by (nonlinear_arith)
        requires
            0 <= p <= 16384,
            num == 16 * p * 65536,
            den == 5 * 65536 - 4 * p,
    ;
    lemma_div_pos_is_pos(num, den);
    lemma_div_bound(num, 65536, den);
}

pub proof fn lemma_sin_turns_bounds(t: int)
    requires
        0 <= t < 65536,
    ensures
        -65536 <= sin_turns_s(t) <= 65536,
{
    if t < 32768 {
        lemma_half_sin_bounds(t);
    } else {
        lemma_half_sin_bounds(t - 32768);
    }
}

fn half_sin(t: u64) -> (r: u64)
    requires
        t <= 32768,
    ensures
        r == half_sin_s(t as int),
        r <= 65536,
{
    let x: u64 = 2 * t;
    proof {
        assert(x * (65536 - x) <= 16384 * 65536) by (nonlinear_arith)
            requires
                0 <= x <= 65536,
        ;
    }
    let p: u64 = (x * (65536 - x)) / 65536;
    proof {
        lemma_div_bound((x * (65536 - x)) as int, 16384, 65536);
        assert(p <= 16384);
    }
    let num: u64 = 16 * p * 65536;
    let den: u64 = 5 * 65536 - 4 * p;
    let r: u64 = num / den;
    proof {
        lemma_half_sin_bounds(t as int);
    }
    r
}

/// Scaled sine of an angle in turns.
pub fn sin_turns(t: i64) -> (r: i64)
    requires
        0 <= t < 65536,
    ensures
        r == sin_turns_s(t as int),
        -65536 <= r <= 65536,
{
    if t < 32768 {
        let h = half_sin(t as u64);
        h as i64
    } else {
        let h = half_sin((t - 32768) as u64);
        -(h as i64)
    }
}

/// Scaled cosine of an angle in turns.
pub fn cos_turns(t: i64) -> (r: i64)
    requires
        0 <= t < 65536,
    ensures
        r == cos_turns_s(t as int),
        -65536 <= r <= 65536,
{
    let u: i64 = t + 16384;
    let w: i64 = if u >= 65536 {
        u - 65536
    } else {
        u
    };
    proof {
        assert(w == (t + 16384) % 65536) by (nonlinear_arith)
            requires
                0 <= t < 65536,
                u == t + 16384,
                w == if u >= 65536 { u - 65536 } else { u as int },
        ;
        lemma_sin_turns_bounds(w as int);
    }
    sin_turns(w)
}

/// Octant arctangent: for a ratio `z` in [0, SCALE] (a slope in [0, 1]),
/// the angle in turns, scaled; at most an eighth of a turn plus the
/// approximation's small excess.
pub open spec fn atan_oct_s(z: int) -> int {
    (z * 8192) / 65536 + (2847 * ((z * (65536 - z)) / 65536)) / 65536
}

proof fn lemma_atan_oct_bounds(z: int)
    requires
        0 <= z <= 65536,
    ensures
        0 <= atan_oct_s(z) <= 8903,
{
    let t1 = (z * 8192) / 65536;
    lemma_div_pos_is_pos(z * 8192, 65536);
    lemma_div_bound(z * 8192, 8192, 65536);
    let prod = z * (65536 - z);
    assert(0 <= prod && prod <= 16384 * 65536) by (nonlinear_arith)
        requires
            0 <= z <= 65536,
            prod == z * (65536 - z),
    ;
    let p = prod / 65536;
    lemma_div_pos_is_pos(prod, 65536);
    lemma_div_bound(prod, 16384, 65536);
    let t2 = (2847 * p) / 65536;
    lemma_div_pos_is_pos(2847 * p, 65536);
    lemma_div_bound_strict(2847 * p, 711, 65536);
}

fn atan_oct(z: u64) -> (r: u64)
    requires
        z <= 65536,
    ensures
        r == atan_oct_s(z as int),
        r <= 8903,
{
    let t1: u64 = (z * 8192) / 65536;
    proof {
        assert(z * (65536 - z) <= 16384 * 65536) by (nonlinear_arith)
            requires
                0 <= z <= 65536,
        ;
    }
    let p: u64 = (z * (65536 - z)) / 65536;
    proof {
        lemma_div_bound((z * (65536 - z)) as int, 16384, 65536);
    }
    let t2: u64 = (2847 * p) / 65536;
    proof {
        lemma_atan_oct_bounds(z as int);
    }
    t1 + t2
}

/// First-quadrant angle of the point (ax, ay) with non-negative
/// coordinates, in turns scaled by SCALE: in [0, SCALE/4].
pub open spec fn quadrant_angle_s(ay: int, ax: int) -> int {
    if ay <= ax {
        atan_oct_s((ay * 65536) / ax)
    } else {
        16384 - atan_oct_s((ax * 65536) / ay)
    }
}

/// Angle of the vector (x, y) in turns scaled by SCALE, measured
/// counterclockwise from the positive x axis, in [0, SCALE).
pub open spec fn atan2_turns_s(y: int, x: int) -> int {
    let ax = if x < 0 { -x } else { x };
    let ay = if y < 0 { -y } else { y };
    if ax == 0 && ay == 0 {
        0
    } else {
        let t0 = quadrant_angle_s(ay, ax);
        let t = if x >= 0 && y >= 0 {
            t0
        } else if x < 0 && y >= 0 {
            32768 - t0
        } else if x < 0 {
            32768 + t0
        } else {
            65536 - t0
        };
        t % 65536
    }
}

proof fn lemma_quadrant_angle_bounds(ay: int, ax: int)
    requires
        0 <= ax,
        0 <= ay,
        ax > 0 || ay > 0,
    ensures
        0 <= quadrant_angle_s(ay, ax) <= 16384,
{
    if ay <= ax {
        let z = (ay * 65536) / ax;
        lemma_div_pos_is_pos(ay * 65536, ax);
        assert(ay * 65536 <= 65536 * ax) by (nonlinear_arith)
            requires
                ay <= ax,
        ;
        lemma_div_bound(ay * 65536, 65536, ax);
        lemma_atan_oct_bounds(z);
    } else {
        let z = (ax * 65536) / ay;
        lemma_div_pos_is_pos(ax * 65536, ay);
        assert(ax * 65536 <= 65536 * ay) by (nonlinear_arith)
            requires
                ax <= ay,
        ;
        lemma_div_bound(ax * 65536, 65536, ay);
        lemma_atan_oct_bounds(z);
    }
}

pub proof fn lemma_atan2_turns_range(y: int, x: int)
    ensures
        0 <= atan2_turns_s(y, x) < 65536,
{
    let ax = if x < 0 { -x } else { x };
    let ay = if y < 0 { -y } else { y };
    if ax == 0 && ay == 0 {
    } else {
        lemma_quadrant_angle_bounds(ay, ax);
        let t0 = quadrant_angle_s(ay, ax);
        let t = if x >= 0 && y >= 0 {
            t0
        } else if x < 0 && y >= 0 {
            32768 - t0
        } else if x < 0 {
            32768 + t0
        } else {
            65536 - t0
        };
        assert(0 <= t <= 65536);
        assert(t % 65536 == if t == 65536 { 0int } else { t }) by (nonlinear_arith)
            requires
                0 <= t <= 65536,
        ;
    }
}

fn quadrant_angle(ay: u64, ax: u64) -> (r: u64)
    requires
        ax <= 0x10_0000,
        ay <= 0x10_0000,
        ax > 0 || ay > 0,
    ensures
        r == quadrant_angle_s(ay as int, ax as int),
        r <= 16384,
{
    proof {
        lemma_quadrant_angle_bounds(ay as int, ax as int);
    }
    if ay <= ax {
        let z: u64 = (ay * 65536) / ax;
        proof {
            assert(ay * 65536 <= 65536 * ax) by (nonlinear_arith)
                requires
                    ay <= ax,
            ;
            lemma_div_bound((ay * 65536) as int, 65536, ax as int);
        }
        atan_oct(z)
    } else {
        let z: u64 = (ax * 65536) / ay;
        proof {
            assert(ax * 65536 <= 65536 * ay) by (nonlinear_arith)
                requires
                    ax <= ay,
            ;
            lemma_div_bound((ax * 65536) as int, 65536, ay as int);
        }
        16384 - atan_oct(z)
    }
}

/// Angle of the vector (x, y) in turns, counterclockwise from +x.
pub fn atan2_turns(y: i64, x: i64) -> (r: i64)
    requires
        -0x10_0000 <= x <= 0x10_0000,
        -0x10_0000 <= y <= 0x10_0000,
    ensures
        r == atan2_turns_s(y as int, x as int),
        0 <= r < 65536,
{
    let ax: u64 = if x < 0 {
        (-x) as u64
    } else {
        x as u64
    };
    let ay: u64 = if y < 0 {
        (-y) as u64
    } else {
        y as u64
    };
    if ax == 0 && ay == 0 {
        0
    } else {
        let t0: u64 = quadrant_angle(ay, ax);
        let t: u64 = if x >= 0 && y >= 0 {
            t0
        } else if x < 0 && y >= 0 {
            32768 - t0
        } else if x < 0 {
            32768 + t0
        } else {
            65536 - t0
        };
        proof {
            lemma_atan2_turns_range(y as int, x as int);
            assert((t as int) % 65536 == if t == 65536 { 0int } else { t as int })
                by (nonlinear_arith)
                requires
                    0 <= t as int <= 65536,
            ;
        }
        if t == 65536 {
            0
        } else {
            t as i64
        }
    }
}

} // verus!
