use zerodao::refresh_seeds::{FullOrder, PostResultHash, ResultHash};

#[test]
fn from_u64() {
    let mut full_order = FullOrder::from_u64(&0u64, 1);
    assert_eq!(full_order.0, Vec::<u8>::new());
    let order_u64 = full_order.try_to_u64();
    assert_eq!(order_u64, Some(0));

    let mut full_order = FullOrder::from_u64(&0u64, 1);
    let connect_vec = vec![12u8, 16u8];
    let order_u64 = full_order.connect_to_u64(&connect_vec).unwrap();
    assert_eq!(FullOrder::from_u64(&order_u64, 2).0, connect_vec);
}

#[test]
fn try_to_u64_reads_little_endian_and_pads() {
    let mut full_order = FullOrder(vec![1u8, 2u8]);
    assert_eq!(full_order.try_to_u64(), Some(0x0201));
    assert_eq!(full_order.0, vec![1u8, 2, 0, 0, 0, 0, 0, 0]);
}

#[test]
fn try_to_u64_refuses_more_than_eight_bytes() {
    let mut full_order = FullOrder(vec![1u8; 9]);
    assert_eq!(full_order.try_to_u64(), None);
    assert_eq!(full_order.0, vec![1u8; 9]);
}

#[test]
fn try_to_u64_of_eight_bytes() {
    let mut full_order = FullOrder(vec![0xffu8; 8]);
    assert_eq!(full_order.try_to_u64(), Some(u64::MAX));
}

#[test]
fn from_u64_takes_the_bytes_of_the_depth() {
    let x: u64 = 0x0807_0605_0403_0201;
    assert_eq!(FullOrder::from_u64(&x, 0).0, Vec::<u8>::new());
    assert_eq!(FullOrder::from_u64(&x, 2).0, vec![1u8, 2]);
    assert_eq!(FullOrder::from_u64(&x, 3).0, vec![1u8, 2, 3, 4]);
    assert_eq!(FullOrder::from_u64(&x, 5).0, vec![1u8, 2, 3, 4, 5, 6, 7, 8]);
    assert_eq!(FullOrder::from_u64(&x, 7).0, vec![1u8, 2, 3, 4, 5, 6, 7, 8]);
}

#[test]
fn connect_appends_two_bytes() {
    let mut full_order = FullOrder(vec![5u8]);
    full_order.connect(&[6u8, 7u8, 8u8]);
    assert_eq!(full_order.0, vec![5u8, 6, 7]);
}

#[test]
fn from_u64_undoes_connect_to_u64() {
    let mut full_order = FullOrder(vec![0xabu8, 0xcd, 0x01, 0x02]);
    let x = full_order.connect_to_u64(&[0x33u8, 0x44]).unwrap();
    assert_eq!(x, 0x4433_0201_cdab);
    assert_eq!(FullOrder::from_u64(&x, 4).0, vec![0xabu8, 0xcd, 0x01, 0x02, 0x33, 0x44]);
}

#[test]
fn to_result_hash_keeps_order_and_score() {
    let post = PostResultHash([0xf9u8, 0x01], 50);
    let r = post.to_result_hash();
    assert_eq!(r.order, [0xf9u8, 0x01]);
    assert_eq!(r.score, 50);
}

#[test]
fn result_hashes_are_equal_by_order() {
    let a = ResultHash { order: [1u8, 2], score: 10 };
    let b = ResultHash { order: [1u8, 2], score: 99 };
    let c = ResultHash { order: [2u8, 1], score: 10 };
    assert!(a == b);
    assert!(a != c);
}
