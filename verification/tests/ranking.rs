use wt_manager::ranking::{best_index, rank};

#[test]
fn rank_orders_by_descending_key() {
    let keys: Vec<Option<i64>> = vec![Some(3), Some(10), None, Some(7)];
    assert_eq!(rank(&keys), vec![1, 3, 0]);
}

#[test]
fn rank_keeps_equal_keys_in_given_order() {
    let keys: Vec<Option<i64>> = vec![Some(5), Some(9), Some(5), Some(9), Some(5)];
    assert_eq!(rank(&keys), vec![1, 3, 0, 2, 4]);
}

#[test]
fn rank_of_nothing_is_empty() {
    let none: Vec<Option<i64>> = vec![];
    assert_eq!(rank(&none), Vec::<usize>::new());
    let unmatched: Vec<Option<i64>> = vec![None, None];
    assert_eq!(rank(&unmatched), Vec::<usize>::new());
}

#[test]
fn rank_handles_negative_and_extreme_keys() {
    let keys: Vec<Option<i64>> = vec![Some(-1), Some(i64::MIN), Some(i64::MAX), Some(0)];
    assert_eq!(rank(&keys), vec![2, 3, 0, 1]);
}

#[test]
fn rank_of_unsigned_keys() {
    let keys: Vec<Option<u64>> = vec![Some(1), Some(u64::MAX), Some(1)];
    assert_eq!(rank(&keys), vec![1, 0, 2]);
}

#[test]
fn best_index_is_first_of_the_highest() {
    let keys: Vec<Option<i64>> = vec![Some(3), None, Some(8), Some(8), Some(1)];
    assert_eq!(best_index(&keys), Some(2));
    let none: Vec<Option<i64>> = vec![None, None];
    assert_eq!(best_index(&none), None);
    let empty: Vec<Option<i64>> = vec![];
    assert_eq!(best_index(&empty), None);
}

#[test]
fn best_index_is_head_of_rank() {
    let keys: Vec<Option<i64>> = vec![None, Some(-4), Some(2), Some(2), None, Some(-4)];
    assert_eq!(best_index(&keys), rank(&keys).first().copied());
}
