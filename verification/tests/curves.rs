use billiard::curve::dist;
use billiard::curve::inner_point;
use billiard::curve::inner_radius;
use billiard::curve::outer_point;
use billiard::curve::sample_inner;
use billiard::curve::sample_outer;
use billiard::curve::R_INNER_BASE;
use billiard::curve::R_INNER_WOBBLE;
use billiard::curve::R_OUTER;
use billiard::scalar::isqrt;
use billiard::trig::TAU_FP;
use billiard::Point;

#[test]
fn isqrt_exact_values() {
    assert_eq!(isqrt(0), 0);
    assert_eq!(isqrt(1), 1);
    assert_eq!(isqrt(2), 1);
    assert_eq!(isqrt(3), 1);
    assert_eq!(isqrt(4), 2);
    assert_eq!(isqrt(15), 3);
    assert_eq!(isqrt(16), 4);
    assert_eq!(isqrt(1_000_000_000_000), 1_000_000);
    assert_eq!(isqrt(u64::MAX), 4_294_967_295);
}

#[test]
fn dist_exact_values() {
    let o = Point { x: 0, y: 0 };
    let a = Point { x: 3, y: 4 };
    assert_eq!(dist(o, a), 5);
    assert_eq!(dist(a, o), 5);
    let b = Point { x: 1_000_000, y: 0 };
    assert_eq!(dist(o, b), 1_000_000);
    let c = Point { x: -1_000_000, y: 1_000_000 };
    assert_eq!(dist(o, c), 1_414_213);
}

#[test]
fn curve_exact_values_at_zero() {
    assert_eq!(outer_point(0), Point { x: 1_999_998, y: 0 });
    assert_eq!(inner_point(0), Point { x: 1_249_997, y: 0 });
    assert_eq!(inner_radius(0), 1_249_999);
}

#[test]
fn curves_are_periodic() {
    for &s in &[0i64, 1, 1_000_000, -3_500_000, 12_345_678, -987_654_321, 6_283_186] {
        assert_eq!(inner_point(s), inner_point(s + TAU_FP));
        assert_eq!(outer_point(s), outer_point(s + TAU_FP));
        assert_eq!(inner_radius(s), inner_radius(s + TAU_FP));
        assert_eq!(inner_point(s), inner_point(s - TAU_FP));
        assert_eq!(outer_point(s), outer_point(s - TAU_FP));
    }
}

#[test]
fn curves_are_nested() {
    let mut s: i64 = -7_000_000;
    while s <= 7_000_000 {
        let r = inner_radius(s);
        assert!(r > 0);
        assert!(r < R_OUTER);
        assert!(r >= R_INNER_BASE - R_INNER_WOBBLE);
        assert!(r <= R_INNER_BASE + R_INNER_WOBBLE);
        s += 17_321;
    }
}

#[test]
fn curve_points_stay_in_band() {
    let mut s: i64 = -7_000_000;
    while s <= 7_000_000 {
        let pi = inner_point(s);
        let po = outer_point(s);
        assert!(pi.x.abs() <= R_OUTER && pi.y.abs() <= R_OUTER);
        assert!(po.x.abs() <= R_OUTER && po.y.abs() <= R_OUTER);
        s += 23_459;
    }
}

#[test]
fn sampled_polylines_close_up() {
    let inner = sample_inner(1000);
    assert_eq!(inner.len(), 1001);
    assert_eq!(inner[0], inner_point(0));
    assert_eq!(inner[1000], inner[0]);

    let outer = sample_outer(10);
    assert_eq!(outer.len(), 11);
    assert_eq!(outer[0], outer_point(0));
    assert_eq!(outer[10], outer[0]);
}
