//! Fixed-point trigonometry.
//!
//! Angles are micro-radians. `spec_sin_at` / `spec_cos_at` give the exact
//! value every executable evaluation returns: a rational approximation of the
//! sine on `[0, PI_FP]` (exact at `0`, `PI_FP / 2` and `PI_FP`, within about
//! 0.2% elsewhere), extended to all of `i64` by reduction modulo `TAU_FP`.
//! Both are total and exactly periodic with period `TAU_FP`.

use vstd::prelude::*;
use crate::scalar::SCALE;
use crate::scalar::lemma_div_bounds;
use vstd::arithmetic::div_mod::lemma_mod_bound;
use vstd::arithmetic::div_mod::lemma_mod_multiples_vanish;
use vstd::arithmetic::div_mod::lemma_mod_add_multiples_vanish;

verus! {

/// One half turn, in micro-radians.
pub const PI_FP: i64 = 3_141_593;

/// One quarter turn, in micro-radians.
pub const HALF_PI_FP: i64 = 1_570_796;

/// One full turn, in micro-radians: the period of both curve evaluations.
pub const TAU_FP: i64 = 2 * PI_FP;

/// An angle reduced into `[0, TAU_FP)`: the Euclidean remainder.
pub open spec fn spec_reduce(s: int) -> int {
    s % (TAU_FP as int)
}

pub proof fn lemma_reduce_range(s: int)
    ensures
        0 <= spec_reduce(s) < TAU_FP,
{
    lemma_mod_bound(s, TAU_FP as int);
}

/// Reduction is exactly periodic.
pub proof fn lemma_reduce_periodic(s: int)
    ensures
        spec_reduce(s + TAU_FP) == spec_reduce(s),
{
    lemma_mod_add_multiples_vanish(s, TAU_FP as int);
}

/// Reduces any angle into `[0, TAU_FP)`.
pub fn reduce_angle(s: i64) -> (r: i64)
    ensures
        r as int == spec_reduce(s as int),
        0 <= r < TAU_FP,
{
    let shifted: i128 = (s as i128) + (TAU_FP as i128) * 1_500_000_000_000;
    assert(shifted >= 0);
    let vu: u128 = shifted as u128;
    let r_u: u128 = vu % (TAU_FP as u128);
    proof {
        lemma_mod_multiples_vanish(1_500_000_000_000, s as int, TAU_FP as int);
        lemma_mod_bound(s as int, TAU_FP as int);
    }
    r_u as i64
}

/// The sine approximation on `[0, PI_FP]`, scaled by `SCALE`:
/// `16 x (PI - x) / (5 PI^2 - 4 x (PI - x))` in fixed point.
pub open spec fn spec_sin_half(x: int) -> int {
    let q = x * (PI_FP - x);
    (16 * q * SCALE) / (5 * (PI_FP as int) * (PI_FP as int) - 4 * q)
}

/// For `0 <= x <= p`, the product `x * (p - x)` lies in `[0, p * p / 4]`.
proof fn lemma_hump_bounds(x: int, p: int) by (nonlinear_arith)
    requires
        0 <= x <= p,
    ensures
        0 <= x * (p - x),
        4 * (x * (p - x)) <= p * p,
{
}

pub proof fn lemma_sin_half_bounds(x: int)
    requires
        0 <= x <= PI_FP,
    ensures
        0 <= spec_sin_half(x) <= SCALE,
{
    lemma_hump_bounds(x, PI_FP as int);
    let q = x * (PI_FP - x);
    let den = 5 * (PI_FP as int) * (PI_FP as int) - 4 * q;
    assert(den > 0);
    assert(16 * q * SCALE <= den * SCALE);
    lemma_div_bounds(16 * q * SCALE, den, SCALE as int);
}

fn sin_half(x: i64) -> (r: i64)
    requires
        0 <= x <= PI_FP,
    ensures
        r as int == spec_sin_half(x as int),
        0 <= r <= SCALE,
{
    proof {
        lemma_sin_half_bounds(x as int);
        lemma_hump_bounds(x as int, PI_FP as int);
    }
    let q: u128 = (x as u128) * ((PI_FP - x) as u128);
    let num: u128 = 16 * q * (SCALE as u128);
    let den: u128 = 5 * (PI_FP as u128) * (PI_FP as u128) - 4 * q;
    let r128: u128 = num / den;
    proof {
        lemma_div_bounds(num as int, den as int, SCALE as int);
    }
    r128 as i64
}

/// The sine of an angle already reduced into `[0, TAU_FP)`.
pub open spec fn spec_sin_dir(x: int) -> int {
    if x <= PI_FP {
        spec_sin_half(x)
    } else {
        -spec_sin_half(x - PI_FP)
    }
}

pub proof fn lemma_sin_dir_bounds(x: int)
    requires
        0 <= x < TAU_FP,
    ensures
        -SCALE <= spec_sin_dir(x) <= SCALE,
{
    if x <= PI_FP {
        lemma_sin_half_bounds(x);
    } else {
        lemma_sin_half_bounds(x - PI_FP);
    }
}

fn sin_dir(x: i64) -> (r: i64)
    requires
        0 <= x < TAU_FP,
    ensures
        r as int == spec_sin_dir(x as int),
        -SCALE <= r <= SCALE,
{
    if x <= PI_FP {
        sin_half(x)
    } else {
        let v = sin_half(x - PI_FP);
        -v
    }
}

/// A quarter turn ahead, kept inside `[0, TAU_FP)`.
pub open spec fn spec_quarter_shift(x: int) -> int {
    if x + HALF_PI_FP >= TAU_FP {
        x + HALF_PI_FP - TAU_FP
    } else {
        x + HALF_PI_FP
    }
}

/// The fixed-point sine of any angle.
pub open spec fn spec_sin_at(s: int) -> int {
    spec_sin_dir(spec_reduce(s))
}

/// The fixed-point cosine of any angle: the sine, a quarter turn ahead.
pub open spec fn spec_cos_at(s: int) -> int {
    spec_sin_dir(spec_quarter_shift(spec_reduce(s)))
}

pub proof fn lemma_sin_at_bounds(s: int)
    ensures
        -SCALE <= spec_sin_at(s) <= SCALE,
        -SCALE <= spec_cos_at(s) <= SCALE,
{
    lemma_reduce_range(s);
    lemma_sin_dir_bounds(spec_reduce(s));
    lemma_sin_dir_bounds(spec_quarter_shift(spec_reduce(s)));
}

/// Sine of any angle, reduced first.
pub fn sin_at(s: i64) -> (r: i64)
    ensures
        r as int == spec_sin_at(s as int),
        -SCALE <= r <= SCALE,
{
    let x = reduce_angle(s);
    sin_dir(x)
}

/// Cosine of any angle, reduced first.
pub fn cos_at(s: i64) -> (r: i64)
    ensures
        r as int == spec_cos_at(s as int),
        -SCALE <= r <= SCALE,
{
    let x = reduce_angle(s);
    let shifted = if x + HALF_PI_FP >= TAU_FP {
        x + HALF_PI_FP - TAU_FP
    } else {
        x + HALF_PI_FP
    };
    sin_dir(shifted)
}

/// Both trigonometric evaluations are exactly periodic in `TAU_FP`.
pub proof fn lemma_trig_periodic(s: int)
    ensures
        spec_sin_at(s + TAU_FP) == spec_sin_at(s),
        spec_cos_at(s + TAU_FP) == spec_cos_at(s),
{
    lemma_reduce_periodic(s);
}

} // verus!
