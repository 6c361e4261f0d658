//! Fixed-point scalars and the integer square root.
//!
//! A scalar is an `i64` counting millionths: `SCALE` stands for one unit,
//! so the value `1_500_000` reads as 1.5. Angles are micro-radians.

use vstd::prelude::*;

verus! {

/// Fixed-point unit: one logical unit equals `SCALE` raw steps.
pub const SCALE: i64 = 1_000_000;

/// The floor of the square root of a natural number.
pub open spec fn sqrt_floor(x: nat) -> nat
    decreases x,
{
    if x == 0 {
        0
    } else {
        let r = sqrt_floor((x - 1) as nat);
        if (r + 1) * (r + 1) <= x {
            r + 1
        } else {
            r
        }
    }
}

/// `sqrt_floor(x)` is the unique `r` with `r * r <= x < (r + 1) * (r + 1)`.
pub proof fn lemma_sqrt_floor_bounds(x: nat)
    ensures
        sqrt_floor(x) * sqrt_floor(x) <= x,
        x < (sqrt_floor(x) + 1) * (sqrt_floor(x) + 1),
    decreases x,
{
    if x == 0 {
        assert(sqrt_floor(0) == 0);
        assert(x < (sqrt_floor(x) + 1) * (sqrt_floor(x) + 1)) by (nonlinear_arith)
            requires x == 0nat && sqrt_floor(x) == 0nat;
    } else {
        lemma_sqrt_floor_bounds((x - 1) as nat);
        let r = sqrt_floor((x - 1) as nat);
        assert(sqrt_floor(x) == if (r + 1) * (r + 1) <= x {
            r + 1nat
        } else {
            r
        });
        if (r + 1) * (r + 1) <= x {
            assert((r + 1) * (r + 1) < (r + 2) * (r + 2)) by (nonlinear_arith)
                requires 0 <= r;
            assert(x - 1 < (r + 1) * (r + 1));
        }
    }
}

/// Any `r` sandwiched as `r * r <= x < (r + 1) * (r + 1)` is `sqrt_floor(x)`.
pub proof fn lemma_sqrt_floor_unique(x: nat, r: nat)
    requires
        r * r <= x,
        x < (r + 1) * (r + 1),
    ensures
        r == sqrt_floor(x),
{
    lemma_sqrt_floor_bounds(x);
    let s = sqrt_floor(x);
    if r < s {
        assert((r + 1) * (r + 1) <= s * s) by (nonlinear_arith)
            requires r + 1 <= s;
    }
    if s < r {
        assert((s + 1) * (s + 1) <= r * r) by (nonlinear_arith)
            requires s + 1 <= r;
    }
}

/// Floor of the square root, by binary search.
pub fn isqrt(x: u64) -> (r: u64)
    ensures
        r * r <= x,
        x < (r + 1) * (r + 1),
        r as nat == sqrt_floor(x as nat),
{
    let mut lo: u64 = 0;
    let mut hi: u64 = 4_294_967_296;
    assert(4_294_967_296int * 4_294_967_296int > x);
    while lo + 1 < hi
        invariant
            lo < hi <= 4_294_967_296,
            lo * lo <= x,
            x < hi * hi,
        decreases hi - lo,
    {
        let mid: u64 = lo + (hi - lo) / 2;
        assert(lo < mid < hi);
        assert(mid * mid <= 4_294_967_296int * 4_294_967_296int) by (nonlinear_arith)
            requires 0 <= mid <= 4_294_967_296int;
        let sq: u128 = (mid as u128) * (mid as u128);
        if sq <= x as u128 {
            lo = mid;
        } else {
            hi = mid;
        }
    }
    proof {
        lemma_sqrt_floor_unique(x as nat, lo as nat);
    }
    lo
}

/// Quotient bound: a non-negative numerator at most `den * cap` divides to
/// a quotient between `0` and `cap`.
pub proof fn lemma_div_bounds(num: int, den: int, cap: int)
    requires
        0 <= num,
        0 < den,
        0 <= cap,
        num <= den * cap,
    ensures
        0 <= num / den <= cap,
{
    vstd::arithmetic::div_mod::lemma_div_pos_is_pos(num, den);
    vstd::arithmetic::div_mod::lemma_div_is_ordered(num, den * cap, den);
    vstd::arithmetic::div_mod::lemma_div_multiples_vanish(cap, den);
}

} // verus!
