use sunhouse::distance::{is_less, is_nonnegative, order_key};
use sunhouse::intersection::{is_occluded, scene_intersections, sort_by_t, Hit, Intersection};

fn at(t: f64, object: usize) -> Intersection {
    Intersection::new(t.to_bits(), object)
}

fn ts(xs: &[Intersection]) -> Vec<f64> {
    xs.iter().map(|i| f64::from_bits(i.t_bits)).collect()
}

#[test]
fn order_key_follows_float_order() {
    let values: [f64; 11] = [-1.0e300, -7.5, -1.0, -1.0e-300, 0.0, 1.0e-300, 0.5, 1.0, 4.0, 6.0, 1.0e300];
    for a in values {
        for b in values {
            assert_eq!(order_key(a.to_bits()) < order_key(b.to_bits()), a < b, "{} {}", a, b);
            assert_eq!(is_less(a.to_bits(), b.to_bits()), a < b);
        }
    }
}

#[test]
fn negative_zero_counts_as_zero() {
    assert_eq!(order_key((-0.0f64).to_bits()), order_key(0.0f64.to_bits()));
    assert!(is_nonnegative((-0.0f64).to_bits()));
    assert!(is_nonnegative(0.0f64.to_bits()));
    assert!(!is_nonnegative((-1.0e-300f64).to_bits()));
}

#[test]
fn order_key_exact_values() {
    assert_eq!(order_key(0), 0);
    assert_eq!(order_key(1.0f64.to_bits()), 0x3FF0_0000_0000_0000);
    assert_eq!(order_key((-1.0f64).to_bits()), -0x3FF0_0000_0000_0000);
}

#[test]
fn hit_of_empty_list_is_none() {
    let xs: Vec<Intersection> = vec![];
    assert_eq!(xs.hit(), None);
}

#[test]
fn hit_when_all_behind_is_none() {
    let xs = vec![at(-2.0, 0), at(-1.0, 0)];
    assert_eq!(xs.hit(), None);
}

#[test]
fn hit_when_all_ahead() {
    let xs = vec![at(2.0, 0), at(1.0, 1)];
    assert_eq!(xs.hit(), Some(at(1.0, 1)));
}

#[test]
fn hit_when_some_behind() {
    let xs = vec![at(1.0, 0), at(-1.0, 1)];
    assert_eq!(xs.hit(), Some(at(1.0, 0)));
}

#[test]
fn hit_is_lowest_nonnegative() {
    let xs = vec![at(5.0, 0), at(7.0, 1), at(-3.0, 2), at(2.0, 3)];
    assert_eq!(xs.hit(), Some(at(2.0, 3)));
}

#[test]
fn hit_at_zero_counts() {
    let xs = vec![at(3.0, 0), at(0.0, 1), at(-0.5, 2)];
    assert_eq!(xs.hit(), Some(at(0.0, 1)));
}

#[test]
fn hit_takes_first_of_equal() {
    let xs = vec![at(4.0, 0), at(2.0, 1), at(2.0, 2)];
    assert_eq!(xs.hit(), Some(at(2.0, 1)));
}

#[test]
fn sort_orders_by_t() {
    let xs = vec![at(6.0, 0), at(-1.0, 1), at(4.5, 2), at(4.0, 0), at(-3.0, 3)];
    let sorted = sort_by_t(&xs);
    assert_eq!(ts(&sorted), vec![-3.0, -1.0, 4.0, 4.5, 6.0]);
    assert_eq!(sorted.len(), xs.len());
    for x in &xs {
        assert!(sorted.contains(x));
    }
}

#[test]
fn sort_of_empty_list() {
    assert!(sort_by_t(&vec![]).is_empty());
}

#[test]
fn occluded_when_hit_before_light() {
    let xs = vec![at(-1.0, 0), at(3.0, 1), at(8.0, 1)];
    assert!(is_occluded(&xs, 5.0f64.to_bits()));
}

#[test]
fn not_occluded_when_hit_beyond_light() {
    let xs = vec![at(-1.0, 0), at(6.0, 1)];
    assert!(!is_occluded(&xs, 5.0f64.to_bits()));
}

#[test]
fn not_occluded_without_hit() {
    let xs = vec![at(-4.0, 0), at(-2.0, 1)];
    assert!(!is_occluded(&xs, 5.0f64.to_bits()));
    assert!(!is_occluded(&vec![], 5.0f64.to_bits()));
}

#[test]
fn sort_keeps_order_of_equal_t() {
    let xs = vec![at(2.0, 5), at(1.0, 0), at(2.0, 3), at(-0.0, 7), at(0.0, 4), at(2.0, 1)];
    let sorted = sort_by_t(&xs);
    assert_eq!(sorted, vec![at(-0.0, 7), at(0.0, 4), at(1.0, 0), at(2.0, 5), at(2.0, 3), at(2.0, 1)]);
}

#[test]
fn scene_intersections_tags_and_sorts() {
    let per_object = vec![
        vec![4.0f64.to_bits(), 6.0f64.to_bits()],
        vec![],
        vec![4.5f64.to_bits(), 5.5f64.to_bits()],
        vec![(-1.0f64).to_bits()],
    ];
    let xs = scene_intersections(&per_object);
    assert_eq!(xs, vec![at(-1.0, 3), at(4.0, 0), at(4.5, 2), at(5.5, 2), at(6.0, 0)]);
    assert_eq!(xs.hit(), Some(at(4.0, 0)));
}

#[test]
fn scene_intersections_equal_t_in_object_order() {
    let per_object = vec![vec![1.0f64.to_bits()], vec![1.0f64.to_bits(), 1.0f64.to_bits()]];
    assert_eq!(scene_intersections(&per_object), vec![at(1.0, 0), at(1.0, 1), at(1.0, 1)]);
}

#[test]
fn scene_without_objects_has_no_hit() {
    let xs = scene_intersections(&vec![]);
    assert!(xs.is_empty());
    assert_eq!(xs.hit(), None);
}

#[test]
fn default_intersection_is_at_zero() {
    let i = Intersection::default();
    assert_eq!(f64::from_bits(i.t_bits), 0.0);
    assert_eq!(i.object, 0);
}
