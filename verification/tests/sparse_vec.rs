use krill::ecs::sparse_vec::SparseVec;

#[test]
fn set_grows_and_returns_previous() {
    let mut v = SparseVec::new();
    assert_eq!(v.set(3, "c"), None);
    assert_eq!(v.get(3), Some(&"c"));
    assert_eq!(v.get(0), None);
    assert_eq!(v.set(3, "d"), Some("c"));
    assert!(v.contains(3));
    assert!(!v.contains(10));
}

#[test]
fn remove_and_remove_if() {
    let mut v = SparseVec::default();
    v.set(0, 1u32);
    v.set(1, 2u32);
    assert_eq!(v.remove_if(0, |x| *x > 5), None);
    assert_eq!(v.get(0), Some(&1));
    assert_eq!(v.remove_if(0, |x| *x == 1), Some(1));
    assert_eq!(v.get(0), None);
    assert_eq!(v.remove(1), Some(2));
    assert_eq!(v.remove(1), None);
    assert_eq!(v.remove(7), None);
}

#[test]
fn iter_lists_present_values_in_order() {
    let mut v = SparseVec::new();
    v.set(4, 'e');
    v.set(1, 'b');
    v.set(2, 'c');
    v.remove(2);
    assert_eq!(v.iter(), vec![&'b', &'e']);
    *v.get_mut(1).unwrap() = 'B';
    assert_eq!(v.iter(), vec![&'B', &'e']);
}

#[test]
fn occupied_lists_filled_positions_in_order() {
    let mut s: SparseVec<u8> = SparseVec::new();
    assert!(s.occupied().is_empty());
    s.set(4, 1);
    s.set(1, 2);
    s.set(6, 3);
    s.remove(4);
    assert_eq!(s.occupied(), vec![1, 6]);
}
