//! The billiard trajectory problem and its solver.
//!
//! A `Billiard` holds the two endpoint parameters, the number of reflections
//! and the minimizer's step size. `minimize_length` seeds the interior bounce
//! parameters evenly between the endpoints and runs a coordinate descent:
//! each sweep tries moving every interior parameter by one step in either
//! direction, keeping a move only when it shortens the total path. The whole
//! run is mirrored by spec functions, so the result is a function of the
//! problem alone; a converged run is proved to be a local minimum of the
//! total path length.

use vstd::prelude::*;
use crate::curve::Point;
use crate::curve::R_OUTER;
use crate::curve::DIST_MAX;
use crate::curve::spec_inner_point;
use crate::curve::spec_outer_point;
use crate::curve::spec_dist;
use crate::curve::inner_point;
use crate::curve::outer_point;
use crate::curve::dist;

verus! {

/// Largest admissible magnitude of an endpoint parameter.
pub const S_BOUND: i64 = 1_000_000_000_000;

/// Largest admissible minimizer step.
pub const D_BOUND: i64 = 1_000_000_000;

/// Largest admissible number of reflections.
pub const N_BOUND: i64 = 100_000;

/// Cap on the number of descent sweeps in one run.
pub const MAX_SWEEPS: u64 = 1000;

/// Band inside which interior parameters stay during a run; additions of one
/// step never overflow while inside it.
pub const PARAM_MAX: i64 = 4_000_000_000_000;

/// Why a problem could not be constructed.
#[derive(Clone, Copy, PartialEq, Eq, Structural, Debug)]
pub enum BilliardError {
    /// The reflection count was below one, or the step size not positive.
    InvalidParameter,
}

/// An immutable billiard trajectory problem.
#[derive(Clone, Copy, PartialEq, Eq, Structural, Debug)]
pub struct Billiard {
    pub s_initial: i64,
    pub s_final: i64,
    pub num_collisions: i64,
    pub delta: i64,
}

/// A solver result: the interior bounce points, the interior parameters they
/// were evaluated at, and whether the descent converged before the sweep cap.
pub struct Trajectory {
    pub points: Vec<Point>,
    pub params: Vec<i64>,
    pub converged: bool,
}

impl Billiard {
    /// A well-formed problem: endpoints and step inside the admissible band,
    /// at least one reflection.
    pub open spec fn wf(self) -> bool {
        &&& -S_BOUND <= self.s_initial <= S_BOUND
        &&& -S_BOUND <= self.s_final <= S_BOUND
        &&& 1 <= self.num_collisions <= N_BOUND
        &&& 0 < self.delta <= D_BOUND
    }

    /// Constructs a problem; rejects a reflection count below one or a
    /// non-positive step, and accepts everything else in the admissible band.
    pub fn new(s_initial: i64, s_final: i64, num_collisions: i64, delta: i64) -> (r: Result<
        Billiard,
        BilliardError,
    >)
        requires
            -S_BOUND <= s_initial <= S_BOUND,
            -S_BOUND <= s_final <= S_BOUND,
            num_collisions <= N_BOUND,
            delta <= D_BOUND,
        ensures
            match r {
                Ok(b) => {
                    &&& num_collisions >= 1
                    &&& delta > 0
                    &&& b.s_initial == s_initial
                    &&& b.s_final == s_final
                    &&& b.num_collisions == num_collisions
                    &&& b.delta == delta
                    &&& b.wf()
                },
                Err(e) => {
                    &&& num_collisions < 1 || delta <= 0
                    &&& e == BilliardError::InvalidParameter
                },
            },
    {
        if num_collisions < 1 || delta <= 0 {
            Err(BilliardError::InvalidParameter)
        } else {
            Ok(Billiard { s_initial, s_final, num_collisions, delta })
        }
    }

    /// The stored initial curve parameter.
    pub fn s_initial(&self) -> (v: i64)
        ensures
            v == self.s_initial,
    {
        self.s_initial
    }

    /// The stored final curve parameter.
    pub fn s_final(&self) -> (v: i64)
        ensures
            v == self.s_final,
    {
        self.s_final
    }

    /// The stored number of reflections.
    pub fn num_collisions(&self) -> (v: i64)
        ensures
            v == self.num_collisions,
    {
        self.num_collisions
    }

    /// The stored minimizer step size.
    pub fn delta(&self) -> (v: i64)
        ensures
            v == self.delta,
    {
        self.delta
    }

    /// The inner boundary curve at parameter `s`.
    pub fn z_inside(&self, s: i64) -> (p: Point)
        ensures
            p == spec_inner_point(s as int),
    {
        inner_point(s)
    }

    /// The outer boundary curve at parameter `s`.
    pub fn z_outside(&self, s: i64) -> (p: Point)
        ensures
            p == spec_outer_point(s as int),
    {
        outer_point(s)
    }
}

/// The `k`-th point of the assembled path for interior parameters `params`:
/// the start lies on the outer curve at `s_initial`; interior point `k` lies
/// on the inner curve for odd `k` and on the outer curve for even `k`; the
/// terminal point, at `s_final`, follows the same parity rule.
pub open spec fn spec_path_point(b: Billiard, params: Seq<i64>, k: int) -> Point {
    if k == 0 {
        spec_outer_point(b.s_initial as int)
    } else if k == b.num_collisions {
        if k % 2 == 1 {
            spec_inner_point(b.s_final as int)
        } else {
            spec_outer_point(b.s_final as int)
        }
    } else {
        if k % 2 == 1 {
            spec_inner_point(params[k - 1] as int)
        } else {
            spec_outer_point(params[k - 1] as int)
        }
    }
}

/// Total length of the first `j` segments of the assembled path.
#[verifier::opaque]
pub open spec fn spec_cost_upto(b: Billiard, params: Seq<i64>, j: int) -> int
    decreases j,
{
    if j <= 0 {
        0
    } else {
        spec_cost_upto(b, params, j - 1) + spec_dist(
            spec_path_point(b, params, j - 1),
            spec_path_point(b, params, j),
        )
    }
}

/// Total length of the assembled path: the minimized objective.
pub open spec fn spec_cost(b: Billiard, params: Seq<i64>) -> int {
    spec_cost_upto(b, params, b.num_collisions as int)
}

impl Billiard {
    /// The `k`-th point of the assembled path, endpoints included.
    pub fn path_point(&self, params: &Vec<i64>, k: usize) -> (p: Point)
        requires
            self.wf(),
            params@.len() == self.num_collisions - 1,
            k <= self.num_collisions,
        ensures
            p == spec_path_point(*self, params@, k as int),
            -R_OUTER <= p.x <= R_OUTER,
            -R_OUTER <= p.y <= R_OUTER,
    {
        let n: usize = self.num_collisions as usize;
        if k == 0 {
            outer_point(self.s_initial)
        } else if k == n {
            if k % 2 == 1 {
                inner_point(self.s_final)
            } else {
                outer_point(self.s_final)
            }
        } else {
            let sp: i64 = params[k - 1];
            if k % 2 == 1 {
                inner_point(sp)
            } else {
                outer_point(sp)
            }
        }
    }

    /// Total length of the assembled path for the given interior parameters.
    pub fn path_cost(&self, params: &Vec<i64>) -> (c: u64)
        requires
            self.wf(),
            params@.len() == self.num_collisions - 1,
        ensures
            c as int == spec_cost(*self, params@),
    {
        proof {
            reveal_with_fuel(spec_cost_upto, 2);
        }
        let n: usize = self.num_collisions as usize;
        let mut total: u64 = 0;
        let mut prev: Point = self.path_point(params, 0);
        let mut k: usize = 1;
        while k <= n
            invariant
                self.wf(),
                params@.len() == self.num_collisions - 1,
                n == self.num_collisions,
                1 <= k <= n + 1,
                prev == spec_path_point(*self, params@, k - 1),
                -R_OUTER <= prev.x <= R_OUTER,
                -R_OUTER <= prev.y <= R_OUTER,
                total == spec_cost_upto(*self, params@, k - 1),
                total <= (k - 1) * (DIST_MAX as int),
            decreases n + 1 - k,
        {
            proof {
                reveal_with_fuel(spec_cost_upto, 2);
            }
            let cur = self.path_point(params, k);
            let d = dist(prev, cur);
            total = total + d;
            prev = cur;
            k = k + 1;
        }
        total
    }
}

/// The `k`-th seed value: interior parameters start evenly spread between
/// `s_initial` and `s_final`.
pub open spec fn spec_seed_at(b: Billiard, k: int) -> i64 {
    let n = b.num_collisions as int;
    if b.s_final >= b.s_initial {
        (b.s_initial + ((b.s_final - b.s_initial) * k) / n) as i64
    } else {
        (b.s_initial - ((b.s_initial - b.s_final) * k) / n) as i64
    }
}

/// The deterministic initial guess for the interior parameters.
pub open spec fn spec_seed(b: Billiard) -> Seq<i64> {
    Seq::new((b.num_collisions - 1) as nat, |i: int| spec_seed_at(b, i + 1))
}

/// Products of non-negative factors stay within the factor-wise bounds.
proof fn lemma_prod_bounds(d: int, k: int, n: int, dcap: int, ncap: int) by (nonlinear_arith)
    requires
        0 <= d <= dcap,
        0 <= k <= n <= ncap,
    ensures
        0 <= d * k <= n * d,
        n * d <= ncap * dcap,
{
}

/// Each seed value lies between the two endpoint parameters.
proof fn lemma_seed_at_range(b: Billiard, k: int)
    requires
        b.wf(),
        0 <= k <= b.num_collisions,
    ensures
        -S_BOUND <= spec_seed_at(b, k) <= S_BOUND,
{
    let n = b.num_collisions as int;
    if b.s_final >= b.s_initial {
        let d = b.s_final - b.s_initial;
        lemma_prod_bounds(d, k, n, 2 * S_BOUND as int, N_BOUND as int);
        crate::scalar::lemma_div_bounds(d * k, n, d);
    } else {
        let d = b.s_initial - b.s_final;
        lemma_prod_bounds(d, k, n, 2 * S_BOUND as int, N_BOUND as int);
        crate::scalar::lemma_div_bounds(d * k, n, d);
    }
}

/// The sequence `p` with entry `i` moved by `d`.
pub open spec fn spec_perturbed(p: Seq<i64>, i: int, d: int) -> Seq<i64> {
    p.update(i, (p[i] + d) as i64)
}

/// One descent step on coordinate `i`: move by one step up or down if that
/// strictly shortens the path (ties broken toward the upward move), else stay.
pub open spec fn spec_step(b: Billiard, p: Seq<i64>, i: int) -> Seq<i64> {
    let up = spec_perturbed(p, i, b.delta as int);
    let dn = spec_perturbed(p, i, -(b.delta as int));
    let c0 = spec_cost(b, p);
    let cu = spec_cost(b, up);
    let cd = spec_cost(b, dn);
    if cu < c0 && cu <= cd {
        up
    } else if cd < c0 {
        dn
    } else {
        p
    }
}

/// One full sweep: a descent step on every coordinate from `i` up.
pub open spec fn spec_sweep_from(b: Billiard, p: Seq<i64>, i: int) -> Seq<i64>
    decreases p.len() - i,
{
    if i < 0 || i >= p.len() {
        p
    } else {
        spec_sweep_from(b, spec_step(b, p, i), i + 1)
    }
}

impl Billiard {
    /// Builds the seed: evenly spaced interior parameters.
    fn seed_params(&self) -> (p: Vec<i64>)
        requires
            self.wf(),
        ensures
            p@ == spec_seed(*self),
            p@.len() == self.num_collisions - 1,
            forall|j: int| 0 <= j < p@.len() ==> -S_BOUND <= #[trigger] p@[j] <= S_BOUND,
    {
        let count: usize = (self.num_collisions - 1) as usize;
        let n_u: u64 = self.num_collisions as u64;
        let mut p: Vec<i64> = Vec::new();
        let mut k: usize = 1;
        while k <= count
            invariant
                self.wf(),
                count == self.num_collisions - 1,
                n_u == self.num_collisions,
                1 <= k <= count + 1,
                p@.len() == k - 1,
                forall|j: int|
                    0 <= j < p@.len() ==> #[trigger] p@[j] == spec_seed_at(*self, j + 1),
                forall|j: int| 0 <= j < p@.len() ==> -S_BOUND <= #[trigger] p@[j] <= S_BOUND,
            decreases count + 1 - k,
        {
            proof {
                lemma_seed_at_range(*self, k as int);
                let n = self.num_collisions as int;
                if self.s_final >= self.s_initial {
                    let d = self.s_final - self.s_initial;
                    lemma_prod_bounds(d, k as int, n, 2 * S_BOUND as int, N_BOUND as int);
                    crate::scalar::lemma_div_bounds(d * k, n, d);
                } else {
                    let d = self.s_initial - self.s_final;
                    lemma_prod_bounds(d, k as int, n, 2 * S_BOUND as int, N_BOUND as int);
                    crate::scalar::lemma_div_bounds(d * k, n, d);
                }
            }
            let v: i64 = if self.s_final >= self.s_initial {
                let d: u64 = (self.s_final - self.s_initial) as u64;
                let q: u64 = (d * (k as u64)) / n_u;
                self.s_initial + (q as i64)
            } else {
                let d: u64 = (self.s_initial - self.s_final) as u64;
                let q: u64 = (d * (k as u64)) / n_u;
                self.s_initial - (q as i64)
            };
            p.push(v);
            k = k + 1;
        }
        proof {
            assert(p@ =~= spec_seed(*self));
        }
        p
    }
}

/// Element-wise copy of a parameter vector.
fn copy_params(v: &Vec<i64>) -> (r: Vec<i64>)
    ensures
        r@ == v@,
{
    let mut r: Vec<i64> = Vec::new();
    let mut i: usize = 0;
    while i < v.len()
        invariant
            i <= v@.len(),
            r@.len() == i,
            forall|j: int| 0 <= j < i ==> #[trigger] r@[j] == v@[j],
        decreases v@.len() - i,
    {
        let x = v[i];
        r.push(x);
        i = i + 1;
    }
    proof {
        assert(r@ =~= v@);
    }
    r
}

/// Element-wise equality of two parameter vectors.
fn params_equal(a: &Vec<i64>, b: &Vec<i64>) -> (eq: bool)
    ensures
        eq <==> a@ == b@,
{
    if a.len() != b.len() {
        return false;
    }
    let mut i: usize = 0;
    while i < a.len()
        invariant
            a@.len() == b@.len(),
            i <= a@.len(),
            forall|j: int| 0 <= j < i ==> #[trigger] a@[j] == b@[j],
        decreases a@.len() - i,
    {
        if a[i] != b[i] {
            return false;
        }
        i = i + 1;
    }
    proof {
        assert(a@ =~= b@);
    }
    true
}

impl Billiard {
    /// One descent sweep over every interior parameter.
    fn sweep(&self, p: &Vec<i64>) -> (r: Vec<i64>)
        requires
            self.wf(),
            p@.len() == self.num_collisions - 1,
            forall|j: int| 0 <= j < p@.len() ==> -PARAM_MAX <= #[trigger] p@[j] <= PARAM_MAX,
        ensures
            r@ == spec_sweep_from(*self, p@, 0),
            r@.len() == p@.len(),
            forall|j: int|
                0 <= j < p@.len() ==> p@[j] - self.delta <= #[trigger] r@[j] <= p@[j]
                    + self.delta,
    {
        let mut cur = copy_params(p);
        let len: usize = cur.len();
        let mut i: usize = 0;
        while i < len
            invariant
                self.wf(),
                len == p@.len(),
                cur@.len() == p@.len(),
                p@.len() == self.num_collisions - 1,
                forall|j: int| 0 <= j < p@.len() ==> -PARAM_MAX <= #[trigger] p@[j] <= PARAM_MAX,
                i <= len,
                spec_sweep_from(*self, cur@, i as int) == spec_sweep_from(*self, p@, 0),
                forall|j: int|
                    0 <= j < p@.len() ==> p@[j] - self.delta <= #[trigger] cur@[j] <= p@[j]
                        + self.delta,
                forall|j: int| i <= j < p@.len() ==> #[trigger] cur@[j] == p@[j],
            decreases len - i,
        {
            let ghost prev = cur@;
            let c0 = self.path_cost(&cur);
            let vi: i64 = cur[i];
            let mut up = copy_params(&cur);
            up.set(i, vi + self.delta);
            let cu = self.path_cost(&up);
            let mut dn = copy_params(&cur);
            dn.set(i, vi - self.delta);
            let cd = self.path_cost(&dn);
            proof {
                assert(up@ == spec_perturbed(prev, i as int, self.delta as int));
                assert(dn@ == spec_perturbed(prev, i as int, -(self.delta as int)));
            }
            if cu < c0 && cu <= cd {
                cur = up;
            } else if cd < c0 {
                cur = dn;
            }
            proof {
                assert(cur@ == spec_step(*self, prev, i as int));
                assert(spec_sweep_from(*self, prev, i as int) == spec_sweep_from(
                    *self,
                    cur@,
                    i as int + 1,
                ));
            }
            i = i + 1;
        }
        proof {
            assert(spec_sweep_from(*self, cur@, len as int) == cur@);
        }
        cur
    }
}

/// Repeated sweeps from `p`, at most `fuel` of them: stops early, reporting
/// convergence, as soon as a full sweep leaves every parameter unchanged.
pub open spec fn spec_iterate(b: Billiard, p: Seq<i64>, fuel: nat) -> (Seq<i64>, bool)
    decreases fuel,
{
    if fuel == 0 {
        (p, false)
    } else {
        let q = spec_sweep_from(b, p, 0);
        if q == p {
            (p, true)
        } else {
            spec_iterate(b, q, (fuel - 1) as nat)
        }
    }
}

/// The solver's result on problem `b`: the interior parameters it settles on
/// and whether the descent converged. A function of the problem alone.
pub open spec fn spec_solution(b: Billiard) -> (Seq<i64>, bool) {
    spec_iterate(b, spec_seed(b), MAX_SWEEPS as nat)
}

impl Billiard {
    /// Finds the interior bounce points by coordinate descent on the total
    /// path length, from the deterministic seed. The returned flag tells a
    /// converged run from a best-effort one that hit the sweep cap.
    pub fn minimize_length(&self) -> (t: Trajectory)
        requires
            self.wf(),
        ensures
            t.params@ == spec_solution(*self).0,
            t.converged == spec_solution(*self).1,
            t.converged ==> spec_sweep_from(*self, t.params@, 0) == t.params@,
            t.params@.len() == self.num_collisions - 1,
            t.points@.len() == self.num_collisions - 1,
            forall|i: int|
                0 <= i < t.points@.len() ==> #[trigger] t.points@[i] == spec_path_point(
                    *self,
                    t.params@,
                    i + 1,
                ),
    {
        let mut params = self.seed_params();
        let mut fuel: u64 = MAX_SWEEPS;
        let mut converged = false;
        while fuel > 0 && !converged
            invariant
                self.wf(),
                params@.len() == self.num_collisions - 1,
                fuel <= MAX_SWEEPS,
                forall|j: int|
                    0 <= j < params@.len() ==> -S_BOUND - (MAX_SWEEPS - fuel) * D_BOUND
                        <= #[trigger] params@[j] <= S_BOUND + (MAX_SWEEPS - fuel) * D_BOUND,
                if converged {
                    spec_solution(*self) == (params@, true) && spec_sweep_from(*self, params@, 0)
                        == params@
                } else {
                    spec_iterate(*self, params@, fuel as nat) == spec_solution(*self)
                },
            decreases 2 * fuel + (if converged { 0int } else { 1int }),
        {
            let ghost pv = params@;
            let next = self.sweep(&params);
            if params_equal(&next, &params) {
                converged = true;
                proof {
                    assert(spec_iterate(*self, pv, fuel as nat) == (pv, true));
                }
            } else {
                params = next;
                fuel = fuel - 1;
                proof {
                    assert(spec_iterate(*self, pv, (fuel + 1) as nat) == spec_iterate(
                        *self,
                        params@,
                        fuel as nat,
                    ));
                }
            }
        }
        proof {
            if !converged {
                assert(spec_iterate(*self, params@, 0) == (params@, false));
            }
        }
        let n: usize = self.num_collisions as usize;
        let mut points: Vec<Point> = Vec::new();
        let mut k: usize = 1;
        while k <= n - 1
            invariant
                self.wf(),
                n == self.num_collisions,
                params@.len() == self.num_collisions - 1,
                1 <= k <= n,
                points@.len() == k - 1,
                forall|i: int|
                    0 <= i < points@.len() ==> #[trigger] points@[i] == spec_path_point(
                        *self,
                        params@,
                        i + 1,
                    ),
            decreases n - k,
        {
            let pt = self.path_point(&params, k);
            points.push(pt);
            k = k + 1;
        }
        Trajectory { points, params, converged }
    }
}

impl Billiard {
    /// The assembled renderable path: the start point on the outer curve, the
    /// interior bounce points, and the terminal point, which lies on the
    /// inner curve for an odd reflection count and on the outer curve for an
    /// even one.
    pub fn full_path(&self, t: &Trajectory) -> (path: Vec<Point>)
        requires
            self.wf(),
            t.params@.len() == self.num_collisions - 1,
        ensures
            path@.len() == self.num_collisions + 1,
            forall|k: int|
                0 <= k < path@.len() ==> #[trigger] path@[k] == spec_path_point(
                    *self,
                    t.params@,
                    k,
                ),
            path@[0] == spec_outer_point(self.s_initial as int),
            self.num_collisions % 2 == 1 ==> path@[self.num_collisions as int]
                == spec_inner_point(self.s_final as int),
            self.num_collisions % 2 == 0 ==> path@[self.num_collisions as int]
                == spec_outer_point(self.s_final as int),
    {
        let n: usize = self.num_collisions as usize;
        let mut path: Vec<Point> = Vec::new();
        let mut k: usize = 0;
        while k <= n
            invariant
                self.wf(),
                n == self.num_collisions,
                t.params@.len() == self.num_collisions - 1,
                k <= n + 1,
                path@.len() == k,
                forall|j: int|
                    0 <= j < path@.len() ==> #[trigger] path@[j] == spec_path_point(
                        *self,
                        t.params@,
                        j,
                    ),
            decreases n + 1 - k,
        {
            let pt = self.path_point(&t.params, k);
            path.push(pt);
            k = k + 1;
        }
        path
    }
}

/// Determinism: the solver's outcome is a function of the four construction
/// parameters alone, so two problems built from the same parameters give the
/// same trajectory.
pub proof fn lemma_solver_deterministic(a: Billiard, b: Billiard)
    requires
        a.s_initial == b.s_initial,
        a.s_final == b.s_final,
        a.num_collisions == b.num_collisions,
        a.delta == b.delta,
    ensures
        spec_solution(a) == spec_solution(b),
{
    assert(a == b);
}

/// A sweep changes every parameter by at most one step, touches no index
/// below its starting point, and keeps the length.
proof fn lemma_sweep_from_props(b: Billiard, p: Seq<i64>, i: int, m: int)
    requires
        b.wf(),
        0 <= i <= p.len(),
        0 <= m,
        forall|j: int| 0 <= j < p.len() ==> -m <= #[trigger] p[j] <= m,
        m + (p.len() - i) * (D_BOUND as int) <= i64::MAX,
    ensures
        spec_sweep_from(b, p, i).len() == p.len(),
        forall|j: int| 0 <= j < i ==> #[trigger] spec_sweep_from(b, p, i)[j] == p[j],
        forall|j: int|
            0 <= j < p.len() ==> p[j] - b.delta <= #[trigger] spec_sweep_from(b, p, i)[j] <= p[j]
                + b.delta,
    decreases p.len() - i,
{
    if i < p.len() {
        let q = spec_step(b, p, i);
        assert(forall|j: int| 0 <= j < q.len() ==> -(m + D_BOUND) <= #[trigger] q[j] <= m
            + D_BOUND);
        lemma_sweep_from_props(b, q, i + 1, m + D_BOUND as int);
    }
}

/// If a whole sweep moves nothing, no single step would have moved anything.
proof fn lemma_sweep_fixpoint(b: Billiard, p: Seq<i64>, i: int)
    requires
        b.wf(),
        0 <= i <= p.len(),
        p.len() <= N_BOUND,
        forall|j: int| 0 <= j < p.len() ==> -PARAM_MAX <= #[trigger] p[j] <= PARAM_MAX,
        spec_sweep_from(b, p, i) == p,
    ensures
        forall|j: int| i <= j < p.len() ==> #[trigger] spec_step(b, p, j) == p,
    decreases p.len() - i,
{
    if i < p.len() {
        let q = spec_step(b, p, i);
        assert(forall|j: int| 0 <= j < q.len() ==> -(PARAM_MAX + D_BOUND) <= #[trigger] q[j]
            <= PARAM_MAX + D_BOUND);
        lemma_sweep_from_props(b, q, i + 1, PARAM_MAX as int + D_BOUND as int);
        assert(spec_sweep_from(b, q, i + 1)[i] == q[i]);
        assert(q[i] == p[i]);
        assert(q == p);
        lemma_sweep_fixpoint(b, p, i + 1);
    }
}

/// A run that reports convergence ends on a sweep fixed point.
proof fn lemma_iterate_converged(b: Billiard, p: Seq<i64>, fuel: nat)
    requires
        spec_iterate(b, p, fuel).1,
    ensures
        spec_sweep_from(b, spec_iterate(b, p, fuel).0, 0) == spec_iterate(b, p, fuel).0,
    decreases fuel,
{
    if fuel != 0 {
        let q = spec_sweep_from(b, p, 0);
        if q != p {
            lemma_iterate_converged(b, q, (fuel - 1) as nat);
        }
    }
}

/// Through a whole run, the parameters keep their count and drift from the
/// band `[-m, m]` by at most one step per sweep.
proof fn lemma_iterate_props(b: Billiard, p: Seq<i64>, fuel: nat, m: int)
    requires
        b.wf(),
        p.len() <= N_BOUND,
        0 <= m,
        forall|j: int| 0 <= j < p.len() ==> -m <= #[trigger] p[j] <= m,
        m + (fuel + p.len()) * (D_BOUND as int) <= i64::MAX,
    ensures
        spec_iterate(b, p, fuel).0.len() == p.len(),
        forall|j: int|
            0 <= j < p.len() ==> -(m + fuel * (D_BOUND as int)) <= #[trigger] spec_iterate(
                b,
                p,
                fuel,
            ).0[j] <= m + fuel * (D_BOUND as int),
    decreases fuel,
{
    if fuel != 0 {
        lemma_sweep_from_props(b, p, 0, m);
        let q = spec_sweep_from(b, p, 0);
        if q != p {
            assert(forall|j: int| 0 <= j < q.len() ==> -(m + D_BOUND) <= #[trigger] q[j] <= m
                + D_BOUND);
            lemma_iterate_props(b, q, (fuel - 1) as nat, m + D_BOUND as int);
        }
    }
}

/// The seed lies inside the endpoint band.
proof fn lemma_seed_props(b: Billiard)
    requires
        b.wf(),
    ensures
        spec_seed(b).len() == b.num_collisions - 1,
        forall|j: int|
            0 <= j < spec_seed(b).len() ==> -S_BOUND <= #[trigger] spec_seed(b)[j] <= S_BOUND,
{
    assert forall|j: int|
        0 <= j < spec_seed(b).len() implies -S_BOUND <= #[trigger] spec_seed(b)[j]
        <= S_BOUND by {
        lemma_seed_at_range(b, j + 1);
    }
}

/// On a step fixed point, neither one-step perturbation of coordinate `i`
/// shortens the path.
proof fn lemma_step_fix_no_gain(b: Billiard, p: Seq<i64>, i: int)
    requires
        b.wf(),
        0 <= i < p.len(),
        -PARAM_MAX <= p[i] <= PARAM_MAX,
        spec_step(b, p, i) == p,
    ensures
        spec_cost(b, spec_perturbed(p, i, b.delta as int)) >= spec_cost(b, p),
        spec_cost(b, spec_perturbed(p, i, -(b.delta as int))) >= spec_cost(b, p),
{
    let up = spec_perturbed(p, i, b.delta as int);
    let dn = spec_perturbed(p, i, -(b.delta as int));
    let c0 = spec_cost(b, p);
    let cu = spec_cost(b, up);
    let cd = spec_cost(b, dn);
    assert(up[i] == p[i] + b.delta);
    assert(dn[i] == p[i] - b.delta);
    if cu < c0 && cu <= cd {
        assert(spec_step(b, p, i) == up);
        assert(up[i] != p[i]);
        assert(false);
    } else if cd < c0 {
        assert(spec_step(b, p, i) == dn);
        assert(dn[i] != p[i]);
        assert(false);
    }
    assert(cd >= c0);
    assert(cu >= c0);
}

/// Local-minimum property: after a converged run, moving any single interior
/// parameter of the solution by one step `delta`, in either direction, does
/// not shorten the total path length.
pub proof fn lemma_converged_solution_is_local_minimum(b: Billiard, p: Seq<i64>)
    requires
        b.wf(),
        p == spec_solution(b).0,
        spec_solution(b).1,
    ensures
        forall|i: int|
            0 <= i < p.len() ==> spec_cost(b, #[trigger] spec_perturbed(p, i, b.delta as int))
                >= spec_cost(b, p),
        forall|i: int|
            0 <= i < p.len() ==> spec_cost(b, #[trigger] spec_perturbed(p, i, -(b.delta as int)))
                >= spec_cost(b, p),
{
    lemma_seed_props(b);
    lemma_iterate_props(b, spec_seed(b), MAX_SWEEPS as nat, S_BOUND as int);
    assert(forall|j: int| 0 <= j < p.len() ==> -PARAM_MAX <= #[trigger] p[j] <= PARAM_MAX);
    lemma_iterate_converged(b, spec_seed(b), MAX_SWEEPS as nat);
    lemma_sweep_fixpoint(b, p, 0);
    assert forall|i: int| 0 <= i < p.len() implies spec_cost(
        b,
        #[trigger] spec_perturbed(p, i, b.delta as int),
    ) >= spec_cost(b, p) by {
        lemma_step_fix_no_gain(b, p, i);
    }
    assert forall|i: int| 0 <= i < p.len() implies spec_cost(
        b,
        #[trigger] spec_perturbed(p, i, -(b.delta as int)),
    ) >= spec_cost(b, p) by {
        lemma_step_fix_no_gain(b, p, i);
    }
}

} // verus!
