use zerodao::ordered_set::OrderedSet;

#[test]
fn from() {
    let v = vec![4, 2, 3, 4, 3, 1];
    let set = OrderedSet::from(v);
    assert_eq!(set, OrderedSet::from(vec![1, 2, 3, 4]));
}

#[test]
fn insert() {
    let mut set = OrderedSet::new();
    assert_eq!(set, OrderedSet::from(vec![]));

    assert_eq!(set.insert(1), true);
    assert_eq!(set, OrderedSet::from(vec![1]));

    assert_eq!(set.insert(5), true);
    assert_eq!(set, OrderedSet::from(vec![1, 5]));

    assert_eq!(set.insert(3), true);
    assert_eq!(set, OrderedSet::from(vec![1, 3, 5]));

    assert_eq!(set.insert(3), false);
    assert_eq!(set, OrderedSet::from(vec![1, 3, 5]));
}

#[test]
fn remove() {
    let mut set = OrderedSet::from(vec![1, 2, 3, 4]);

    assert_eq!(set.remove(&5), false);
    assert_eq!(set, OrderedSet::from(vec![1, 2, 3, 4]));

    assert_eq!(set.remove(&1), true);
    assert_eq!(set, OrderedSet::from(vec![2, 3, 4]));

    assert_eq!(set.remove(&3), true);
    assert_eq!(set, OrderedSet::from(vec![2, 4]));

    assert_eq!(set.remove(&3), false);
    assert_eq!(set, OrderedSet::from(vec![2, 4]));

    assert_eq!(set.remove(&4), true);
    assert_eq!(set, OrderedSet::from(vec![2]));

    assert_eq!(set.remove(&2), true);
    assert_eq!(set, OrderedSet::from(vec![]));

    assert_eq!(set.remove(&2), false);
    assert_eq!(set, OrderedSet::from(vec![]));
}

#[test]
fn contains() {
    let set = OrderedSet::from(vec![1, 2, 3, 4]);

    assert_eq!(set.contains(&5), false);

    assert_eq!(set.contains(&1), true);

    assert_eq!(set.contains(&3), true);
}

#[test]
fn clear() {
    let mut set = OrderedSet::from(vec![1, 2, 3, 4]);
    set.clear();
    assert_eq!(set, OrderedSet::new());
}

#[test]
fn ordered_set_len() {
    let set_1 = OrderedSet::from(vec![1, 2, 3, 4]);
    let set_2 = OrderedSet::from(vec![]);
    let set_3 = OrderedSet::from(vec![1, 2, 2, 3, 4, 4, 4]);

    assert_eq!(set_1.len(), 4);
    assert_eq!(set_2.len(), 0);
    assert_eq!(set_3.len(), 4);
}

#[test]
fn ordered_set_sub_set() {
    let mut set_left = OrderedSet::from(vec![1, 2, 3, 4, 5, 6]);
    let set_right = vec![2, 3, 4];
    set_left.sub_set(&set_right);
    assert_eq!(set_left, OrderedSet::from(vec![1, 5, 6]));
}

#[test]
fn sub_set_of_nothing_keeps_the_set() {
    let mut set = OrderedSet::from(vec![3, 7, 9]);
    set.sub_set(&vec![]);
    assert_eq!(set, OrderedSet::from(vec![3, 7, 9]));
}

#[test]
fn sub_set_ignores_missing_elements() {
    let mut set = OrderedSet::from(vec![1, 3, 5, 7, 9, 11, 13]);
    set.sub_set(&vec![2, 5, 13]);
    assert_eq!(set, OrderedSet::from(vec![1, 3, 7, 9, 11]));
}

#[test]
fn sub_set_of_everything_empties_the_set() {
    let mut set = OrderedSet::from(vec![10, 20, 30, 40]);
    set.sub_set(&vec![10, 20, 30, 40]);
    assert_eq!(set, OrderedSet::new());
    assert_eq!(set.len(), 0);
}

#[test]
fn remove_undoes_insert() {
    let original = OrderedSet::from(vec![2, 8, 16]);
    let mut set = OrderedSet::from(vec![2, 8, 16]);
    assert!(set.insert(9));
    assert!(set.contains(&9));
    assert!(set.remove(&9));
    assert_eq!(set, original);
}

#[test]
fn from_sorted_set_keeps_the_vector() {
    let set = OrderedSet::from_sorted_set(vec![1, 4, 9]);
    assert_eq!(set.0, vec![1, 4, 9]);
}

#[test]
fn sub_set_skips_values_not_in_the_set() {
    let mut set = OrderedSet::from(vec![5, 6, 9]);
    set.sub_set(&vec![1, 5, 7, 9]);
    assert_eq!(set, OrderedSet::from(vec![6]));
    let mut set = OrderedSet::from(vec![1, 2, 3]);
    set.sub_set(&vec![3, 1]);
    assert_eq!(set, OrderedSet::from(vec![2]));
}
