use splotrs::joint::{join_parameters, pair_with_names, split_parameters};

#[test]
fn joined_vector_lists_yields_then_shapes() {
    let joint = join_parameters(&[10u64, 20, 30], &[7u64, 8]);
    assert_eq!(joint, vec![10, 20, 30, 7, 8]);
}

#[test]
fn joining_with_no_shapes_keeps_the_yields() {
    assert_eq!(join_parameters(&[4i32, 5], &[]), vec![4, 5]);
    assert_eq!(join_parameters::<i32>(&[], &[]), Vec::<i32>::new());
}

#[test]
fn split_separates_yields_from_shapes() {
    let (yields, shapes) = split_parameters(&[1u8, 2, 3, 4, 5], 2);
    assert_eq!(yields, vec![1, 2]);
    assert_eq!(shapes, vec![3, 4, 5]);
}

#[test]
fn split_at_the_ends() {
    let (yields, shapes) = split_parameters(&[1u8, 2, 3], 3);
    assert_eq!(yields, vec![1, 2, 3]);
    assert!(shapes.is_empty());
    let (yields, shapes) = split_parameters(&[1u8, 2, 3], 0);
    assert!(yields.is_empty());
    assert_eq!(shapes, vec![1, 2, 3]);
}

#[test]
fn split_inverts_join_on_bound_pairs() {
    let yields = vec![(1i64, 100i64), (1, 100)];
    let shapes = vec![(-5i64, 5i64)];
    let joint = join_parameters(&yields, &shapes);
    let (y, s) = split_parameters(&joint, yields.len());
    assert_eq!(y, yields);
    assert_eq!(s, shapes);
}

#[test]
fn names_pair_with_values_in_order() {
    let names = vec!["mean".to_string(), "width".to_string()];
    let pairs = pair_with_names(&names, &[3i32, 4]);
    assert_eq!(pairs, vec![("mean".to_string(), 3), ("width".to_string(), 4)]);
}

#[test]
fn pairing_stops_at_the_shorter_side() {
    let names = vec!["a".to_string(), "b".to_string(), "c".to_string()];
    assert_eq!(pair_with_names(&names, &[1u8]), vec![("a".to_string(), 1)]);
    assert_eq!(pair_with_names(&Vec::new(), &[1u8, 2]), Vec::<(String, u8)>::new());
}
