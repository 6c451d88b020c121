//! Saturating fixed-point arithmetic.
//!
//! Every real quantity in this library (weights, positions, angles, speeds)
//! is a signed fixed-point number: an `i64` holding the value scaled by
//! `SCALE`, so `SCALE` itself stands for 1.0.  All operations saturate at
//! `±CLIP`, which makes them total: no input can overflow or panic.
//!
//! Angles are stored in *turns*: `SCALE` raw units are one full revolution,
//! so wrapping an angle and wrapping a torus coordinate are the same
//! operation, `wrap_unit`.

use vstd::prelude::*;

verus! {

/// Raw units per 1.0: the library works in Q47.16 fixed point.
pub const SCALE: i64 = 65536;

/// Saturation bound of every arithmetic result (±2^40 raw units).
pub const CLIP: i64 = 0x100_0000_0000;

/// Saturate a mathematical integer into [-CLIP, CLIP].
pub open spec fn clip_s(x: int) -> int {
    if x > CLIP as int {
        CLIP as int
    } else if x < -(CLIP as int) {
        -(CLIP as int)
    } else {
        x
    }
}

pub open spec fn abs_s(x: int) -> int {
    if x < 0 {
        -x
    } else {
        x
    }
}

/// Product of two fixed-point values before saturation: the scaled product
/// `a * b / SCALE`, truncated toward zero.
pub open spec fn scaled_prod_s(a: int, b: int) -> int {
    let m = (abs_s(a) * abs_s(b)) / (SCALE as int);
    if (a < 0) != (b < 0) {
        -m
    } else {
        m
    }
}

/// Saturating fixed-point addition.
pub open spec fn fp_add_s(a: int, b: int) -> int {
    clip_s(a + b)
}

/// Saturating fixed-point subtraction.
pub open spec fn fp_sub_s(a: int, b: int) -> int {
    clip_s(a - b)
}

/// Saturating fixed-point multiplication.
pub open spec fn fp_mul_s(a: int, b: int) -> int {
    clip_s(scaled_prod_s(a, b))
}

/// Rectified linear unit: max(x, 0).
pub open spec fn relu_s(x: int) -> int {
    if x < 0 {
        0
    } else {
        x
    }
}

/// Clamp into [lo, hi].
pub open spec fn clamp_s(x: int, lo: int, hi: int) -> int {
    if x < lo {
        lo
    } else if x > hi {
        hi
    } else {
        x
    }
}

/// Euclidean remainder modulo one unit: the representative of `x` in
/// [0, SCALE).  Both torus coordinates and headings live in this range.
pub open spec fn wrap_unit_s(x: int) -> int {
    x % (SCALE as int)
}

pub fn fp_add(a: i64, b: i64) -> (r: i64)
    ensures
        r == fp_add_s(a as int, b as int),
{
    let s: i128 = a as i128 + b as i128;
    if s > CLIP as i128 {
        CLIP
    } else if s < -(CLIP as i128) {
        -CLIP
    } else {
        s as i64
    }
}

pub fn fp_sub(a: i64, b: i64) -> (r: i64)
    ensures
        r == fp_sub_s(a as int, b as int),
{
    let s: i128 = a as i128 - b as i128;
    if s > CLIP as i128 {
        CLIP
    } else if s < -(CLIP as i128) {
        -CLIP
    } else {
        s as i64
    }
}

pub fn fp_mul(a: i64, b: i64) -> (r: i64)
    ensures
        r == fp_mul_s(a as int, b as int),
{
    let ai: i128 = a as i128;
    let bi: i128 = b as i128;
    let ua: u128 = if ai < 0 {
        (-ai) as u128
    } else {
        ai as u128
    };
    let ub: u128 = if bi < 0 {
        (-bi) as u128
    } else {
        bi as u128
    };
    proof {
        assert(ua * ub <= 0x8000_0000_0000_0000u128 * 0x8000_0000_0000_0000u128)
            by (nonlinear_arith)
            requires
                ua <= 0x8000_0000_0000_0000u128,
                ub <= 0x8000_0000_0000_0000u128,
        ;
    }
    let q: u128 = (ua * ub) / (SCALE as u128);
    let neg: bool = (a < 0) != (b < 0);
    if q > CLIP as u128 {
        if neg {
            -CLIP
        } else {
            CLIP
        }
    } else {
        if neg {
            -(q as i64)
        } else {
            q as i64
        }
    }
}

pub fn relu(x: i64) -> (r: i64)
    ensures
        r == relu_s(x as int),
{
    if x < 0 {
        0
    } else {
        x
    }
}

pub fn clamp_fp(x: i64, lo: i64, hi: i64) -> (r: i64)
    requires
        lo <= hi,
    ensures
        r == clamp_s(x as int, lo as int, hi as int),
{
    if x < lo {
        lo
    } else if x > hi {
        hi
    } else {
        x
    }
}

/// The Euclidean remainder is always in [0, SCALE).
pub proof fn lemma_wrap_unit_range(x: int)
    ensures
        0 <= wrap_unit_s(x) < SCALE as int,
{
}

/// Torus wraparound: a coordinate that overruns the unit edge by less
/// than a full turn comes back in at the low edge, shifted by exactly
/// one unit.
pub proof fn lemma_wrap_overflow(x: int)
    requires
        65536 <= x < 131072,
    ensures
        wrap_unit_s(x) == x - 65536,
{
    assert(x % 65536 == x - 65536) by (nonlinear_arith)
        requires
            65536 <= x < 131072,
    ;
}

pub fn wrap_unit(x: i64) -> (r: i64)
    ensures
        r == wrap_unit_s(x as int),
        0 <= r < SCALE,
{
    if x >= 0 {
        ((x as u64) % (SCALE as u64)) as i64
    } else {
        let m: u64 = ((-(x as i128)) as u64) % (SCALE as u64);
        proof {
            let n = SCALE as int;
            let y = -(x as int);
            let d = y / n;
            vstd::arithmetic::div_mod::lemma_fundamental_div_mod(y, n);
            assert(x as int == (-d - 1) * n + (n - (y % n))) by (nonlinear_arith)
                requires
                    x as int == -y,
                    y == n * d + (y % n),
            ;
            assert(x as int == (-d) * n + (-(y % n))) by (nonlinear_arith)
                requires
                    x as int == -y,
                    y == n * d + (y % n),
            ;
            if y % n == 0 {
                vstd::arithmetic::div_mod::lemma_fundamental_div_mod_converse_mod(
                    x as int,
                    n,
                    -d,
                    0,
                );
            } else {
                vstd::arithmetic::div_mod::lemma_fundamental_div_mod_converse_mod(
                    x as int,
                    n,
                    -d - 1,
                    n - (y % n),
                );
            }
        }
        if m == 0 {
            0
        } else {
            SCALE - (m as i64)
        }
    }
}

/// `sqrt_floor(n)` is the integer square root: the greatest `r` with
/// `r * r <= n`.
pub open spec fn sqrt_floor(n: nat) -> nat
    decreases n,
{
    if n == 0 {
        0
    } else {
        let s = sqrt_floor((n - 1) as nat);
        if (s + 1) * (s + 1) <= n {
            s + 1
        } else {
            s
        }
    }
}

pub proof fn lemma_sqrt_floor_bounds(n: nat)
    ensures
        sqrt_floor(n) * sqrt_floor(n) <= n,
        n < (sqrt_floor(n) + 1) * (sqrt_floor(n) + 1),
    decreases n,
{
    if n > 0 {
        lemma_sqrt_floor_bounds((n - 1) as nat);
        let s = sqrt_floor((n - 1) as nat);
        assert(s * s <= n - 1);
        assert(n - 1 < (s + 1) * (s + 1));
        if (s + 1) * (s + 1) <= n {
            assert(sqrt_floor(n) == s + 1);
            assert(n < (s + 2) * (s + 2)) by (nonlinear_arith)
                requires
                    n <= (s + 1) * (s + 1),
            ;
        } else {
            assert(sqrt_floor(n) == s);
            assert(n < (s + 1) * (s + 1));
        }
    } else {
        assert(sqrt_floor(n) == 0);
        assert(sqrt_floor(n) * sqrt_floor(n) <= n) by (nonlinear_arith)
            requires
                sqrt_floor(n) == 0,
                n == 0,
        ;
        assert(n < (sqrt_floor(n) + 1) * (sqrt_floor(n) + 1)) by (nonlinear_arith)
            requires
                sqrt_floor(n) == 0,
                n == 0,
        ;
    }
}

pub proof fn lemma_sqrt_floor_unique(n: nat, r: nat)
    requires
        r * r <= n,
        n < (r + 1) * (r + 1),
    ensures
        r == sqrt_floor(n),
{
    lemma_sqrt_floor_bounds(n);
    let s = sqrt_floor(n);
    if r < s {
        assert((r + 1) * (r + 1) <= s * s) by (nonlinear_arith)
            requires
                r + 1 <= s,
        ;
    }
    if s < r {
        assert((s + 1) * (s + 1) <= r * r) by (nonlinear_arith)
            requires
                s + 1 <= r,
        ;
    }
}

pub fn isqrt(n: u64) -> (r: u64)
    requires
        n <= 0x4000_0000_0000_0000,
    ensures
        r == sqrt_floor(n as nat),
        r * r <= n,
{
    let mut r: u64 = 0;
    while (r + 1) * (r + 1) <= n
        invariant
            n <= 0x4000_0000_0000_0000,
            r * r <= n,
            r <= 0x8000_0000,
            (r + 1) * (r + 1) < 0x1_0000_0000_0000_0000,
        decreases n - r,
    {
        proof {
            assert(r + 1 <= 0x8000_0000) by (nonlinear_arith)
                requires
                    (r + 1) * (r + 1) <= n,
                    n <= 0x4000_0000_0000_0000,
            ;
            assert((r + 2) * (r + 2) < 0x1_0000_0000_0000_0000) by (nonlinear_arith)
                requires
                    r + 1 <= 0x8000_0000,
            ;
            assert(r < n) by (nonlinear_arith)
                requires
                    (r + 1) * (r + 1) <= n,
            ;
        }
        r = r + 1;
    }
    proof {
        lemma_sqrt_floor_unique(n as nat, r as nat);
    }
    r
}

} // verus!
