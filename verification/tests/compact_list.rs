use krill::utils::CompactList;

#[test]
fn add_then_get() {
    let mut list = CompactList::new();
    let a = list.add("a");
    let b = list.add("b");
    assert_eq!(list.get(a), Some(&"a"));
    assert_eq!(list.get(b), Some(&"b"));
}

#[test]
fn removed_handle_stays_dead_after_slot_is_reused() {
    let mut list = CompactList::new();
    let a = list.add(1u32);
    let b = list.add(2u32);
    list.remove(a);
    assert_eq!(list.get(a), None);
    let c = list.add(3u32);
    assert_eq!(list.get(a), None);
    assert_eq!(list.get(c), Some(&3));
    assert_eq!(list.get(b), Some(&2));
    assert!(a != c);
}

#[test]
fn take_returns_value_once() {
    let mut list = CompactList::default();
    let a = list.add(String::from("x"));
    assert_eq!(list.take(a), Some(String::from("x")));
    assert_eq!(list.take(a), None);
    assert_eq!(list.get(a), None);
}

#[test]
fn get_mut_changes_only_that_value() {
    let mut list = CompactList::new();
    let a = list.add(1u32);
    let b = list.add(2u32);
    *list.get_mut(a).unwrap() = 10;
    assert_eq!(list.get(a), Some(&10));
    assert_eq!(list.get(b), Some(&2));
    list.remove(b);
    assert!(list.get_mut(b).is_none());
}

#[test]
fn handles_compare_by_slot_and_generation() {
    let mut list = CompactList::new();
    let a = list.add(0u8);
    let copy = a;
    assert!(copy == a);
    let b = list.add(1u8);
    assert!(a != b);
}
