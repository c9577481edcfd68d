use ray_tracer::intersection::{closest_hit, first_root_in_range};

#[test]
fn nearer_root_is_taken_when_in_range() {
    assert_eq!(first_root_in_range(3, 7, 1, 100), Some(3));
}

#[test]
fn farther_root_is_taken_when_nearer_is_out_of_range() {
    // the ray starts inside: the nearer root lies behind the lower bound
    assert_eq!(first_root_in_range(0, 7, 1, 100), Some(7));
    // the nearer root beyond the upper bound leaves nothing
    assert_eq!(first_root_in_range(150, 200, 1, 100), None);
}

#[test]
fn bounds_are_exclusive() {
    assert_eq!(first_root_in_range(1, 100, 1, 100), None);
    assert_eq!(first_root_in_range(1, 99, 1, 100), Some(99));
    assert_eq!(first_root_in_range(2, 100, 1, 100), Some(2));
}

#[test]
fn nearest_primitive_wins() {
    let roots = vec![Some((40, 60)), Some((10, 20)), Some((30, 35))];
    assert_eq!(closest_hit(&roots, 1, 1000), Some((1, 10)));
}

#[test]
fn equal_distances_go_to_the_earliest_primitive() {
    let roots = vec![None, Some((25, 50)), Some((25, 30)), Some((25, 26))];
    assert_eq!(closest_hit(&roots, 1, 1000), Some((1, 25)));
}

#[test]
fn later_farther_hits_do_not_replace_the_best() {
    let roots = vec![Some((5, 9)), Some((6, 7)), Some((100, 200))];
    assert_eq!(closest_hit(&roots, 1, 1000), Some((0, 5)));
}

#[test]
fn hit_from_inside_uses_the_far_root() {
    let roots = vec![Some((0, 80)), Some((90, 95))];
    assert_eq!(closest_hit(&roots, 1, 1000), Some((0, 80)));
}

#[test]
fn no_hit_in_range_gives_none() {
    let roots = vec![None, Some((0, 1)), Some((1000, 2000))];
    assert_eq!(closest_hit(&roots, 1, 1000), None);
    let empty: Vec<Option<(u64, u64)>> = Vec::new();
    assert_eq!(closest_hit(&empty, 1, 1000), None);
}

#[test]
fn distance_keys_of_floats_keep_their_order() {
    // keys are the bit patterns of non-negative distances
    let t_min = 0.001f64.to_bits();
    let t_max = f64::MAX.to_bits();
    let roots = vec![
        Some(((-1.5f64).to_bits(), 2.5f64.to_bits())),
        Some((0.75f64.to_bits(), 1.25f64.to_bits())),
    ];
    assert_eq!(closest_hit(&roots, t_min, t_max), Some((1, 0.75f64.to_bits())));
}
