//! Fixed-point units and global limits.
//!
//! Positions, velocities and the staggered field samples are `i64` values in
//! units of `1/SCALE` of a grid cell (respectively cells per time unit).
//! `div_floor` is the one division primitive: flooring division, matching
//! the mathematical `/` used throughout the contracts.

use vstd::prelude::*;
use vstd::arithmetic::div_mod::lemma_fundamental_div_mod;
use vstd::arithmetic::div_mod::lemma_fundamental_div_mod_converse_div;

verus! {

/// Number of position units in one grid cell (and velocity units in one
/// cell per time unit, time units in one second).
pub const SCALE: i64 = 3600;

/// Downward gravity, 9.81 cells per second squared, in fixed-point units.
pub const GRAVITY: i64 = 35316;

/// Inward margin used when clamping to the upper domain edge: 0.01 cells.
pub const EPSILON: i64 = 36;

/// Largest accepted grid extent, in cells, on either axis.
pub const MAX_DIM: usize = 10_000;

/// Largest accepted particle population (the occupancy grid counts in bytes).
pub const MAX_PARTICLES: usize = 255;

/// Largest particle speed, per axis, accepted by a step.
pub const VEL_MAX: i64 = 1_000_000_000_000;

/// Largest particle speed, per axis, right after gravity was applied:
/// `VEL_MAX + GRAVITY * DT_MAX / SCALE`.
pub const VEL_STEP: i64 = 1_000_035_316_000;

/// Largest accepted time step: 1000 seconds.
pub const DT_MAX: i64 = 3_600_000;

/// The frame interval of a 30 Hz run: 1/30 of a second.
pub const DT_30FPS: i64 = 120;

/// Bound on any splatted staggered-field sample: `MAX_PARTICLES * VEL_STEP`.
pub const FIELD_MAX: i64 = 255_009_005_580_000;

/// Bound on any corrected staggered-field sample, and so on any particle
/// speed right after a step: a little above `3 * FIELD_MAX`.
pub const CORR_MAX: i64 = 800_000_000_000_000;

/// Largest dividend `div_floor` accepts.
pub const DIV_NUM_MAX: i64 = 9_000_000_000_000_000_000;

/// Flooring division by a small positive divisor; agrees with the
/// mathematical (Euclidean) `/` on every accepted input.
pub fn div_floor(a: i64, b: i64) -> (q: i64)
    requires
        1 <= b <= SCALE,
        -DIV_NUM_MAX <= a <= DIV_NUM_MAX,
    ensures
        q == a as int / b as int,
{
    let bu: u64 = b as u64;
    if a >= 0 {
        let qu: u64 = (a as u64) / bu;
        proof {
            assert(qu <= a as u64) by {
                vstd::arithmetic::div_mod::lemma_div_is_ordered_by_denominator(
                    a as int, 1, b as int);
            }
        }
        qu as i64
    } else {
        let na: u64 = (-a) as u64;
        let qc: u64 = (na + bu - 1) / bu;
        proof {
            let ai = a as int;
            let bi = b as int;
            let nai = na as int;
            let q0 = (nai + bi - 1) / bi;
            let r0 = (nai + bi - 1) % bi;
            lemma_fundamental_div_mod(nai + bi - 1, bi);
            assert(nai + bi - 1 == bi * q0 + r0);
            if r0 + 1 == bi {
                assert(ai == (-q0) * bi + 0) by (nonlinear_arith)
                    requires nai + bi - 1 == bi * q0 + r0, r0 + 1 == bi, ai == -nai;
                lemma_fundamental_div_mod_converse_div(ai, bi, -q0, 0);
            } else {
                assert(ai == (-q0) * bi + (bi - r0 - 1)) by (nonlinear_arith)
                    requires nai + bi - 1 == bi * q0 + r0, ai == -nai;
                lemma_fundamental_div_mod_converse_div(ai, bi, -q0, bi - r0 - 1);
            }
            assert(0 <= q0 <= nai) by {
                vstd::arithmetic::div_mod::lemma_div_pos_is_pos(nai + bi - 1, bi);
                assert(nai + bi - 1 <= nai * bi) by (nonlinear_arith)
                    requires 1 <= nai, 1 <= bi;
                vstd::arithmetic::div_mod::lemma_div_is_ordered(nai + bi - 1, nai * bi, bi);
                lemma_fundamental_div_mod_converse_div(nai * bi, bi, nai, 0);
            }
        }
        -(qc as i64)
    }
}

/// The flooring division of a magnitude-bounded value by a larger divisor
/// keeps the magnitude bound: `|v| <= m` gives `-m <= (v * w) / SCALE <= m`
/// whenever `0 <= w <= SCALE`.
pub proof fn lemma_scaled_bound(v: int, w: int, m: int)
    requires
        -m <= v <= m,
        0 <= w <= SCALE,
        0 <= m,
    ensures
        -m <= (v * w) / (SCALE as int) <= m,
{
    let s = SCALE as int;
    assert(-(m * s) <= v * w <= m * s) by (nonlinear_arith)
        requires -m <= v <= m, 0 <= w <= s, 0 <= m;
    assert((m * s) / s == m) by {
        lemma_fundamental_div_mod_converse_div(m * s, s, m, 0);
    }
    assert((-(m * s)) / s == -m) by {
        lemma_fundamental_div_mod_converse_div(-(m * s), s, -m, 0);
        assert(-(m * s) == (-m) * s + 0) by (nonlinear_arith);
    }
    vstd::arithmetic::div_mod::lemma_div_is_ordered(v * w, m * s, s);
    vstd::arithmetic::div_mod::lemma_div_is_ordered(-(m * s), v * w, s);
}

/// A value bounded by `k * SCALE` keeps, after the flooring division by
/// `SCALE`, a magnitude of at most `k`.
pub proof fn lemma_div_mag(a: int, k: int)
    requires
        -(k * SCALE) <= a <= k * SCALE,
        0 <= k,
    ensures
        -k <= a / (SCALE as int) <= k,
{
    let s = SCALE as int;
    assert((k * s) / s == k) by {
        lemma_fundamental_div_mod_converse_div(k * s, s, k, 0);
    }
    assert((-(k * s)) / s == -k) by {
        assert(-(k * s) == (-k) * s + 0) by (nonlinear_arith);
        lemma_fundamental_div_mod_converse_div(-(k * s), s, -k, 0);
    }
    vstd::arithmetic::div_mod::lemma_div_is_ordered(a, k * s, s);
    vstd::arithmetic::div_mod::lemma_div_is_ordered(-(k * s), a, s);
}

/// Dividing a bounded value by a divisor between 2 and 4 at most halves
/// its magnitude, up to the flooring slack.
pub proof fn lemma_half_bound(d: int, f: int, m: int)
    requires
        -m <= d <= m,
        2 <= f <= 4,
        0 <= m,
    ensures
        -m - 4 <= 2 * (d / f) <= m,
{
    let q = d / f;
    let r = d % f;
    lemma_fundamental_div_mod(d, f);
    assert(-m - 4 <= 2 * q <= m) by (nonlinear_arith)
        requires
            d == f * q + r,
            0 <= r < f,
            2 <= f <= 4,
            -m <= d <= m,
            0 <= m;
}

} // verus!
