use djanco::attrib::{Direction, Sorter};

#[test]
fn sort_by_key_orders_ascending() {
    let s = Sorter::new(vec![5u64, 1, 4, 2, 3], false);
    let r = s.sort_by_key(|x: &u64| *x);
    assert_eq!(r, vec![1, 2, 3, 4, 5]);
}

#[test]
fn sort_by_key_reversed_orders_descending() {
    let s = Sorter::from(vec![5u64, 1, 4, 2, 3], Direction::Descending);
    let r = s.sort_by_key(|x: &u64| *x);
    assert_eq!(r, vec![5, 4, 3, 2, 1]);
}

#[test]
fn sort_by_key_with_projected_key() {
    let s = Sorter::new(vec![(2u64, "b"), (1, "a"), (3, "c")], false);
    let r = s.sort_by_key(|p: &(u64, &str)| p.0);
    assert_eq!(r, vec![(1, "a"), (2, "b"), (3, "c")]);
}

#[test]
fn sort_by_orders_with_comparator() {
    let s = Sorter::new(vec![4u64, 2, 9, 1], false);
    let r = s.sort_by(|a: &u64, b: &u64| a.cmp(b));
    assert_eq!(r, vec![1, 2, 4, 9]);
    let s2 = Sorter::new(vec![4u64, 2, 9, 1], true);
    let r2 = s2.sort_by(|a: &u64, b: &u64| a.cmp(b));
    assert_eq!(r2, vec![9, 4, 2, 1]);
}

#[test]
fn direction_flags() {
    assert!(Direction::Descending.descending());
    assert!(!Direction::Descending.ascending());
    assert!(Direction::Ascending.ascending());
}
