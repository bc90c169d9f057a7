use zerodao::user_set::{UserSet, UserSetExt};

#[test]
fn user_set_len() {
    let set_1: UserSet = UserSet::from(vec![1, 2, 3, 4]);
    let set_2: UserSet = UserSet::from(vec![]);
    let set_3: UserSet = UserSet::from(vec![1, 2, 2, 3, 4, 4, 4]);

    assert_eq!(UserSetExt::len(&set_1), 4);
    assert_eq!(UserSetExt::len(&set_2), 0);
    assert_eq!(UserSetExt::len(&set_3), 4);
}

#[test]
fn user_set_sub_set() {
    let mut set_left: UserSet = UserSet::from(vec![1, 2, 3, 4, 5, 6]);
    let set_right = vec![2, 3, 4];
    UserSetExt::sub_set(&mut set_left, &set_right);
    assert_eq!(set_left, UserSet::from(vec![1, 5, 6]));
}
