//! The two nested boundary curves and fixed-point plane geometry.
//!
//! Both curves are periodic parametric maps from a micro-radian parameter to
//! a point: the outer curve is a circle of radius `R_OUTER`; the inner curve
//! is a wobbled circle whose radius swings by `R_INNER_WOBBLE` around
//! `R_INNER_BASE`, three times per turn. The inner radius stays strictly
//! below the outer one, so the curves never cross.

use vstd::prelude::*;
use crate::scalar::SCALE;
use crate::scalar::sqrt_floor;
use crate::scalar::isqrt;
use crate::scalar::lemma_div_bounds;
use crate::trig::TAU_FP;
use crate::trig::spec_sin_at;
use crate::trig::spec_cos_at;
use crate::trig::spec_reduce;
use crate::trig::sin_at;
use crate::trig::cos_at;
use crate::trig::reduce_angle;
use crate::trig::lemma_sin_at_bounds;
use crate::trig::lemma_trig_periodic;
use crate::trig::lemma_reduce_periodic;

verus! {

/// Radius of the outer boundary circle.
pub const R_OUTER: i64 = 2_000_000;

/// Mean radius of the inner boundary curve.
pub const R_INNER_BASE: i64 = 1_000_000;

/// Amplitude of the inner boundary's radial wobble.
pub const R_INNER_WOBBLE: i64 = 250_000;

/// A point of the plane, in fixed-point coordinates.
#[derive(Clone, Copy, PartialEq, Eq, Structural, Debug)]
pub struct Point {
    pub x: i64,
    pub y: i64,
}

/// One fixed-point coordinate: the product `r * t / SCALE`, rounded down,
/// computed as `(r * (t + SCALE)) / SCALE - r` so the numerator never goes
/// negative.
pub open spec fn spec_scaled(r: int, t: int) -> int {
    (r * (t + SCALE)) / (SCALE as int) - r
}

pub proof fn lemma_scaled_bounds(r: int, t: int)
    requires
        0 < r <= R_OUTER,
        -SCALE <= t <= SCALE,
    ensures
        -r <= spec_scaled(r, t) <= r,
{
    assert(0 <= r * (t + SCALE) && r * (t + SCALE) <= (SCALE as int) * (2 * r))
        by (nonlinear_arith)
        requires 0 < r && 0 <= t + SCALE <= 2 * SCALE;
    lemma_div_bounds(r * (t + SCALE), SCALE as int, 2 * r);
}

/// Computes `spec_scaled(r, t)`.
fn scaled(r: i64, t: i64) -> (c: i64)
    requires
        0 < r <= R_OUTER,
        -SCALE <= t <= SCALE,
    ensures
        c as int == spec_scaled(r as int, t as int),
        -r <= c <= r,
{
    proof {
        lemma_scaled_bounds(r as int, t as int);
        assert(r * (t + SCALE) <= (SCALE as int) * (2 * r)) by (nonlinear_arith)
            requires 0 < r && 0 <= t + SCALE <= 2 * SCALE;
        assert(0 <= r * (t + SCALE)) by (nonlinear_arith)
            requires 0 < r && 0 <= t + SCALE;
    }
    let num: u64 = (r as u64) * ((t + SCALE) as u64);
    let q: u64 = num / (SCALE as u64);
    (q as i64) - r
}

/// Radius of the inner curve at parameter `s`.
pub open spec fn spec_inner_radius(s: int) -> int {
    R_INNER_BASE + spec_scaled(R_INNER_WOBBLE as int, spec_cos_at(3 * spec_reduce(s)))
}

/// Radius of the outer curve at parameter `s` (a circle: constant).
pub open spec fn spec_outer_radius(s: int) -> int {
    R_OUTER as int
}

pub proof fn lemma_inner_radius_bounds(s: int)
    ensures
        R_INNER_BASE - R_INNER_WOBBLE <= spec_inner_radius(s) <= R_INNER_BASE + R_INNER_WOBBLE,
{
    lemma_sin_at_bounds(3 * spec_reduce(s));
    lemma_scaled_bounds(R_INNER_WOBBLE as int, spec_cos_at(3 * spec_reduce(s)));
}

/// Computes the inner curve's radius at parameter `s`.
pub fn inner_radius(s: i64) -> (r: i64)
    ensures
        r as int == spec_inner_radius(s as int),
        R_INNER_BASE - R_INNER_WOBBLE <= r <= R_INNER_BASE + R_INNER_WOBBLE,
{
    proof {
        lemma_inner_radius_bounds(s as int);
    }
    let red = reduce_angle(s);
    let c = cos_at(3 * red);
    R_INNER_BASE + scaled(R_INNER_WOBBLE, c)
}

/// The point at angle `s` and radius `r` from the reference origin.
pub open spec fn spec_ray_point(r: int, s: int) -> Point {
    Point {
        x: spec_scaled(r, spec_cos_at(s)) as i64,
        y: spec_scaled(r, spec_sin_at(s)) as i64,
    }
}

/// The inner curve at parameter `s`.
pub open spec fn spec_inner_point(s: int) -> Point {
    spec_ray_point(spec_inner_radius(s), s)
}

/// The outer curve at parameter `s`.
pub open spec fn spec_outer_point(s: int) -> Point {
    spec_ray_point(R_OUTER as int, s)
}

fn ray_point(r: i64, s: i64) -> (p: Point)
    requires
        0 < r <= R_OUTER,
    ensures
        p == spec_ray_point(r as int, s as int),
        -R_OUTER <= p.x <= R_OUTER,
        -R_OUTER <= p.y <= R_OUTER,
{
    proof {
        lemma_sin_at_bounds(s as int);
        lemma_scaled_bounds(r as int, spec_cos_at(s as int));
        lemma_scaled_bounds(r as int, spec_sin_at(s as int));
    }
    let c = cos_at(s);
    let n = sin_at(s);
    Point { x: scaled(r, c), y: scaled(r, n) }
}

/// Evaluates the inner boundary curve: a total, periodic map.
pub fn inner_point(s: i64) -> (p: Point)
    ensures
        p == spec_inner_point(s as int),
        -R_OUTER <= p.x <= R_OUTER,
        -R_OUTER <= p.y <= R_OUTER,
{
    let r = inner_radius(s);
    ray_point(r, s)
}

/// Evaluates the outer boundary curve: a total, periodic map.
pub fn outer_point(s: i64) -> (p: Point)
    ensures
        p == spec_outer_point(s as int),
        -R_OUTER <= p.x <= R_OUTER,
        -R_OUTER <= p.y <= R_OUTER,
{
    ray_point(R_OUTER, s)
}

/// Periodicity: both curves repeat exactly after a full turn of the
/// parameter, at every real parameter value.
pub proof fn lemma_curves_periodic(s: int)
    ensures
        spec_inner_point(s + TAU_FP) == spec_inner_point(s),
        spec_outer_point(s + TAU_FP) == spec_outer_point(s),
        spec_inner_radius(s + TAU_FP) == spec_inner_radius(s),
{
    lemma_reduce_periodic(s);
    lemma_trig_periodic(s);
}

/// Nesting: at every parameter, the inner curve's point lies strictly closer
/// to the reference origin, along the shared radial direction, than the outer
/// curve's point; neither radius degenerates to zero.
pub proof fn lemma_curves_nested(s: int)
    ensures
        0 < spec_inner_radius(s) < spec_outer_radius(s),
{
    lemma_inner_radius_bounds(s);
}

/// Squared Euclidean distance between two points.
pub open spec fn spec_sq_dist(a: Point, b: Point) -> int {
    (a.x - b.x) * (a.x - b.x) + (a.y - b.y) * (a.y - b.y)
}

/// Euclidean distance, rounded down to the fixed-point grid.
pub open spec fn spec_dist(a: Point, b: Point) -> int {
    sqrt_floor(spec_sq_dist(a, b) as nat) as int
}

/// Upper bound on any distance between curve points.
pub const DIST_MAX: i64 = 6_000_000;

/// Squares are non-negative and bounded by the square of a bound.
proof fn lemma_square_range(d: int, m: int) by (nonlinear_arith)
    requires
        -m <= d <= m,
        0 <= m,
    ensures
        0 <= d * d <= m * m,
{
}

/// Distance between two points of the bounded band around the curves.
pub fn dist(a: Point, b: Point) -> (d: u64)
    requires
        -R_OUTER <= a.x <= R_OUTER,
        -R_OUTER <= a.y <= R_OUTER,
        -R_OUTER <= b.x <= R_OUTER,
        -R_OUTER <= b.y <= R_OUTER,
    ensures
        d as int == spec_dist(a, b),
        d <= DIST_MAX,
{
    let dx: i64 = a.x - b.x;
    let dy: i64 = a.y - b.y;
    proof {
        lemma_square_range(dx as int, 2 * R_OUTER as int);
        lemma_square_range(dy as int, 2 * R_OUTER as int);
    }
    let sq: u64 = ((dx * dx) as u64) + ((dy * dy) as u64);
    let d = isqrt(sq);
    proof {
        assert((DIST_MAX as int) * (DIST_MAX as int) > sq);
        if d > DIST_MAX {
            assert(d * d >= (DIST_MAX as int) * (DIST_MAX as int)) by (nonlinear_arith)
                requires d >= DIST_MAX as int >= 0;
        }
    }
    d
}

/// The `i`-th of `samples` evenly spaced parameters over one period.
pub open spec fn spec_sample_angle(i: int, samples: int) -> int {
    (i * (TAU_FP as int)) / samples
}

/// Evaluates one uniformly sampled parameter.
fn sample_angle(i: usize, samples: usize) -> (s: i64)
    requires
        1 <= samples <= 1_000_000,
        i <= samples,
    ensures
        s as int == spec_sample_angle(i as int, samples as int),
        0 <= s <= TAU_FP,
{
    proof {
        assert(0 <= (i as int) * (TAU_FP as int) && (i as int) * (TAU_FP as int) <= (
        samples as int) * (TAU_FP as int) <= 1_000_000int * (TAU_FP as int)) by (nonlinear_arith)
            requires 0 <= i as int <= samples as int <= 1_000_000int;
        lemma_div_bounds((i as int) * (TAU_FP as int), samples as int, TAU_FP as int);
        vstd::arithmetic::div_mod::lemma_div_multiples_vanish(TAU_FP as int, samples as int);
    }
    let num: u64 = (i as u64) * (TAU_FP as u64);
    let q: u64 = num / (samples as u64);
    q as i64
}

/// One period of the inner curve, sampled at `samples + 1` uniform
/// parameters from `0` to a full turn.
pub fn sample_inner(samples: usize) -> (pts: Vec<Point>)
    requires
        1 <= samples <= 1_000_000,
    ensures
        pts@.len() == samples + 1,
        forall|i: int|
            0 <= i < pts@.len() ==> #[trigger] pts@[i] == spec_inner_point(
                spec_sample_angle(i, samples as int),
            ),
{
    let mut pts: Vec<Point> = Vec::new();
    let mut i: usize = 0;
    while i <= samples
        invariant
            1 <= samples <= 1_000_000,
            i <= samples + 1,
            pts@.len() == i,
            forall|j: int|
                0 <= j < pts@.len() ==> #[trigger] pts@[j] == spec_inner_point(
                    spec_sample_angle(j, samples as int),
                ),
        decreases samples + 1 - i,
    {
        let s = sample_angle(i, samples);
        let p = inner_point(s);
        pts.push(p);
        i = i + 1;
    }
    pts
}

/// One period of the outer curve, sampled at `samples + 1` uniform
/// parameters from `0` to a full turn.
pub fn sample_outer(samples: usize) -> (pts: Vec<Point>)
    requires
        1 <= samples <= 1_000_000,
    ensures
        pts@.len() == samples + 1,
        forall|i: int|
            0 <= i < pts@.len() ==> #[trigger] pts@[i] == spec_outer_point(
                spec_sample_angle(i, samples as int),
            ),
{
    let mut pts: Vec<Point> = Vec::new();
    let mut i: usize = 0;
    while i <= samples
        invariant
            1 <= samples <= 1_000_000,
            i <= samples + 1,
            pts@.len() == i,
            forall|j: int|
                0 <= j < pts@.len() ==> #[trigger] pts@[j] == spec_outer_point(
                    spec_sample_angle(j, samples as int),
                ),
        decreases samples + 1 - i,
    {
        let s = sample_angle(i, samples);
        let p = outer_point(s);
        pts.push(p);
        i = i + 1;
    }
    pts
}

} // verus!
