use cft_ray_tracer::{max_of, min_of, nearest, ChunkIter};

#[test]
fn test_min_max() {
    let v: f64 = min_of(&[max_of(&[0., 10., 20., 30.]), min_of(&[6., 9., 7.]), 5.]);
    assert!((5. - v).abs() <= f64::EPSILON);
}

#[test]
fn max_and_min_of_integers() {
    assert_eq!(max_of(&[3u64, 9, 4, 9, 1]), 9);
    assert_eq!(min_of(&[3i64, -9, 4, -2]), -9);
    assert_eq!(max_of(&[7u8]), 7);
    assert_eq!(min_of(&[7u8]), 7);
}

#[test]
fn clamp_through_max_and_min() {
    assert_eq!(max_of(&[0., min_of(&[1., 1.7])]), 1.);
    assert_eq!(max_of(&[0., min_of(&[1., -0.2])]), 0.);
    assert_eq!(max_of(&[0., min_of(&[1., 0.25])]), 0.25);
}

#[test]
fn nearest_picks_smallest_present_key() {
    assert_eq!(nearest(&[Some(4.0), None, Some(1.5), Some(2.0)]), Some(2));
    assert_eq!(nearest(&[None, Some(3u32)]), Some(1));
    assert_eq!(nearest::<f64>(&[None, None]), None);
    assert_eq!(nearest::<f64>(&[]), None);
}

#[test]
fn nearest_keeps_first_of_equal_keys() {
    assert_eq!(nearest(&[Some(2u64), Some(1), Some(1), Some(5)]), Some(1));
}

#[test]
fn nearest_treats_nan_as_equal() {
    assert_eq!(nearest(&[Some(f64::NAN), Some(1.0)]), Some(0));
    assert_eq!(nearest(&[Some(3.0), Some(f64::NAN), Some(1.0)]), Some(2));
}

#[test]
fn chunks_hand_out_fixed_size_batches() {
    let mut c = vec![1, 2, 3, 4, 5, 6, 7].chunks(3);
    assert_eq!(c.next(), Some(vec![1, 2, 3]));
    assert_eq!(c.next(), Some(vec![4, 5, 6]));
    assert_eq!(c.next(), Some(vec![7]));
    assert_eq!(c.next(), None);
    assert_eq!(c.next(), None);
}

#[test]
fn chunks_of_exact_multiple() {
    let mut c = vec!['a', 'b', 'c', 'd'].chunks(2);
    assert_eq!(c.next(), Some(vec!['a', 'b']));
    assert_eq!(c.next(), Some(vec!['c', 'd']));
    assert_eq!(c.next(), None);
}

#[test]
fn chunks_of_nothing_or_size_zero() {
    let mut empty = Vec::<u8>::new().chunks(4);
    assert_eq!(empty.next(), None);
    let mut zero = vec![1, 2].chunks(0);
    assert_eq!(zero.next(), None);
}

#[test]
fn chunks_larger_than_input() {
    let mut c = vec![String::from("x"), String::from("y")].chunks(10);
    assert_eq!(c.next(), Some(vec![String::from("x"), String::from("y")]));
    assert_eq!(c.next(), None);
}
