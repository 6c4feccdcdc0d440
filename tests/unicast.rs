use tract_exec::error::CoreError;
use tract_exec::unicast::{
    create_incomplete_tile, unaligned_prefix_len, unicast_with_alignment, IUnicastAdd4,
    IUnicastMax4, IUnicastMin4, IUnicastMul4, IUnicastSub4, IUnicastSubF4, TempBuffers, Unicast,
    UnicastImpl, UnicastKer,
};

fn check<K: UnicastKer<i32>>(reference: fn(i32, i32) -> i32) {
    let op = UnicastImpl::<K, i32>::new();
    let mut tmp = TempBuffers::new();
    for len in 0..23usize {
        let a: Vec<i32> = (0..len as i32).map(|x| x * 7 - 40).collect();
        let b: Vec<i32> = (0..len as i32).map(|x| 13 - x * 3).collect();
        let expected: Vec<i32> = a.iter().zip(b.iter()).map(|(x, y)| reference(*x, *y)).collect();
        // base addresses: aligned, misaligned by one to three elements, each side
        for a_skew in 0..4usize {
            for b_skew in 0..4usize {
                let mut found = a.clone();
                op.run(&mut found, &b, 4096 + a_skew * 4, 8192 + b_skew * 4, &mut tmp).unwrap();
                assert_eq!(found, expected, "len {len} skews {a_skew} {b_skew}");
            }
        }
    }
}

#[test]
fn unicast_add_matches_reference_under_misalignment() {
    check::<IUnicastAdd4>(|x, y| x.wrapping_add(y));
}

#[test]
fn unicast_sub_matches_reference_under_misalignment() {
    check::<IUnicastSub4>(|x, y| x.wrapping_sub(y));
}

#[test]
fn unicast_subf_matches_reference_under_misalignment() {
    check::<IUnicastSubF4>(|x, y| y.wrapping_sub(x));
}

#[test]
fn unicast_mul_matches_reference_under_misalignment() {
    check::<IUnicastMul4>(|x, y| x.wrapping_mul(y));
}

#[test]
fn unicast_min_max_match_reference() {
    check::<IUnicastMin4>(|x, y| x.min(y));
    check::<IUnicastMax4>(|x, y| x.max(y));
}

#[test]
fn unicast_wraps_on_overflow() {
    let op = UnicastImpl::<IUnicastAdd4, i32>::new();
    let mut tmp = TempBuffers::new();
    let mut a = vec![i32::MAX, 1, i32::MIN];
    op.run(&mut a, &vec![1, 2, -1], 0, 0, &mut tmp).unwrap();
    assert_eq!(a, vec![i32::MIN, 3, i32::MAX]);
}

#[test]
fn unicast_empty_is_a_no_op() {
    let op = UnicastImpl::<IUnicastMul4, i32>::new();
    let mut tmp = TempBuffers::new();
    let mut a: Vec<i32> = vec![];
    assert_eq!(op.run(&mut a, &vec![], 3, 5, &mut tmp), Ok(()));
    assert!(a.is_empty());
}

#[test]
fn unicast_refuses_unequal_lengths() {
    let op = UnicastImpl::<IUnicastMul4, i32>::new();
    let mut tmp = TempBuffers::new();
    let mut a = vec![1, 2, 3];
    assert_eq!(op.run(&mut a, &vec![1, 2], 0, 0, &mut tmp), Err(CoreError::InvalidShape));
    assert_eq!(a, vec![1, 2, 3]);
    assert_eq!(op.name(), "IUnicastMul4");
}

#[test]
fn incomplete_tile_lengths() {
    assert_eq!(create_incomplete_tile(0, 0), 0);
    assert_eq!(create_incomplete_tile(3, 0), 3);
    assert_eq!(create_incomplete_tile(0, 2), 2);
    assert_eq!(create_incomplete_tile(3, 2), 2);
    assert_eq!(create_incomplete_tile(1, 3), 1);
}

#[test]
fn prefix_lengths_from_addresses() {
    assert_eq!(unaligned_prefix_len(64, 4, 16, 100), 0);
    assert_eq!(unaligned_prefix_len(68, 4, 16, 100), 3);
    assert_eq!(unaligned_prefix_len(76, 4, 16, 100), 1);
    assert_eq!(unaligned_prefix_len(68, 4, 16, 2), 2);
    assert_eq!(unaligned_prefix_len(66, 4, 16, 100), 100);
}

#[test]
fn tiled_executor_with_given_prefixes() {
    let a: Vec<i32> = (0..11).collect();
    let b: Vec<i32> = (0..11).map(|x| 100 * x).collect();
    let mut tmp = TempBuffers::new();
    for (pa, pb) in [(0, 0), (3, 0), (0, 11), (2, 3), (11, 11), (1, 0)] {
        let mut found = a.clone();
        unicast_with_alignment::<i32, IUnicastAdd4>(&mut found, &b, pa, pb, &mut tmp);
        let expected: Vec<i32> = (0..11).map(|x| 101 * x).collect();
        assert_eq!(found, expected);
    }
}
