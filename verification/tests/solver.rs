use billiard::Billiard;
use billiard::BilliardError;

#[test]
fn degenerate_inputs_are_rejected() {
    assert!(matches!(
        Billiard::new(1_000_000, 2_000_000, 0, 100_000),
        Err(BilliardError::InvalidParameter)
    ));
    assert!(matches!(
        Billiard::new(1_000_000, 2_000_000, 10, 0),
        Err(BilliardError::InvalidParameter)
    ));
    assert!(matches!(
        Billiard::new(1_000_000, 2_000_000, -3, -7),
        Err(BilliardError::InvalidParameter)
    ));
    assert!(Billiard::new(1_000_000, 2_000_000, 10, 100_000).is_ok());
}

#[test]
fn accessors_report_stored_values() {
    let b = Billiard::new(1_000_000, 2_000_000, 10, 100_000).unwrap();
    assert_eq!(b.s_initial(), 1_000_000);
    assert_eq!(b.s_final(), 2_000_000);
    assert_eq!(b.num_collisions(), 10);
    assert_eq!(b.delta(), 100_000);
}

#[test]
fn minimize_is_deterministic() {
    let b1 = Billiard::new(1_000_000, 2_000_000, 10, 100_000).unwrap();
    let b2 = Billiard::new(1_000_000, 2_000_000, 10, 100_000).unwrap();
    let t1 = b1.minimize_length();
    let t2 = b2.minimize_length();
    assert_eq!(t1.params, t2.params);
    assert_eq!(t1.points, t2.points);
    assert_eq!(t1.converged, t2.converged);
}

#[test]
fn minimize_returns_one_interior_point_per_segment_boundary() {
    for &n in &[1i64, 2, 3, 5, 10] {
        let b = Billiard::new(1_000_000, 2_000_000, n, 100_000).unwrap();
        let t = b.minimize_length();
        assert_eq!(t.points.len() as i64, n - 1);
        assert_eq!(t.params.len() as i64, n - 1);
    }
}

#[test]
fn single_collision_gives_single_segment() {
    let b = Billiard::new(1_000_000, 2_000_000, 1, 100_000).unwrap();
    let t = b.minimize_length();
    assert!(t.points.is_empty());
    let path = b.full_path(&t);
    assert_eq!(path.len(), 2);
    assert_eq!(path[0], b.z_outside(1_000_000));
    assert_eq!(path[1], b.z_inside(2_000_000));
}

#[test]
fn even_collision_count_ends_on_outer_curve() {
    let b = Billiard::new(1_000_000, 2_000_000, 10, 100_000).unwrap();
    let t = b.minimize_length();
    let path = b.full_path(&t);
    assert_eq!(path.len(), 11);
    assert_eq!(path[0], b.z_outside(1_000_000));
    let last = path[10];
    assert_eq!(last, b.z_outside(2_000_000));
    assert_ne!(last, b.z_inside(2_000_000));
    assert_eq!(last, billiard::Point { x: -833_568, y: 1_816_770 });
}

#[test]
fn odd_collision_count_ends_on_inner_curve() {
    let b = Billiard::new(1_000_000, 2_000_000, 9, 100_000).unwrap();
    let t = b.minimize_length();
    let path = b.full_path(&t);
    assert_eq!(path.len(), 10);
    assert_eq!(path[9], b.z_inside(2_000_000));
    assert_eq!(path[9], billiard::Point { x: -516_781, y: 1_126_329 });
}

#[test]
fn full_path_embeds_interior_points() {
    let b = Billiard::new(1_000_000, 2_000_000, 6, 100_000).unwrap();
    let t = b.minimize_length();
    let path = b.full_path(&t);
    assert_eq!(path.len(), 7);
    for (i, p) in t.points.iter().enumerate() {
        assert_eq!(path[i + 1], *p);
    }
}

#[test]
fn descent_settles_on_expected_parameters() {
    let b = Billiard::new(1_000_000, 2_000_000, 4, 100_000).unwrap();
    let t = b.minimize_length();
    assert!(t.converged);
    assert_eq!(t.params, vec![1_750_000, 1_900_000, 2_050_000]);

    let b2 = Billiard::new(1_000_000, 2_000_000, 2, 100_000).unwrap();
    let t2 = b2.minimize_length();
    assert!(t2.converged);
    assert_eq!(t2.params, vec![1_800_000]);
}

#[test]
fn converged_result_is_a_local_minimum() {
    let b = Billiard::new(1_000_000, 2_000_000, 4, 100_000).unwrap();
    let t = b.minimize_length();
    assert!(t.converged);
    let best = b.path_cost(&t.params);
    for i in 0..t.params.len() {
        let mut up = t.params.clone();
        up[i] += 100_000;
        assert!(b.path_cost(&up) >= best);
        let mut dn = t.params.clone();
        dn[i] -= 100_000;
        assert!(b.path_cost(&dn) >= best);
    }
}

#[test]
fn path_cost_is_positive() {
    let b = Billiard::new(1_000_000, 2_000_000, 1, 100_000).unwrap();
    let t = b.minimize_length();
    assert!(b.path_cost(&t.params) > 0);
}

#[test]
fn descent_does_not_lengthen_the_seeded_path() {
    // The seed puts interior parameters evenly between the endpoints; the
    // returned parameters must not cost more than that starting guess.
    let b = Billiard::new(500_000, 4_500_000, 8, 50_000).unwrap();
    let t = b.minimize_length();
    let n = 8i64;
    let mut seed: Vec<i64> = Vec::new();
    for k in 1..n {
        seed.push(500_000 + ((4_500_000 - 500_000) * k) / n);
    }
    assert!(b.path_cost(&t.params) <= b.path_cost(&seed));
}
