use rgrep::arith::{overflow_sub, overflowing_add};
use rgrep::bigint::BigInt;

#[test]
fn test_overflowing_add() {
    assert_eq!(overflowing_add(10, 100, false), (110, false));
    assert_eq!(overflowing_add(10, 100, true), (111, false));
    assert_eq!(overflowing_add(1 << 63, 1 << 63, false), (0, true));
    assert_eq!(overflowing_add(1 << 63, 1 << 63, true), (1, true));
    assert_eq!(overflowing_add(1 << 63, (1 << 63) - 1, true), (0, true));
}

#[test]
fn test_add() {
    let b1 = BigInt::new(1 << 32);
    let b2 = BigInt::from_vec(vec![0, 1]);

    assert_eq!(b1.add(&b2), BigInt::from_vec(vec![1 << 32, 1]));
    assert_eq!(b1.clone().add(&b2), BigInt::from_vec(vec![1 << 32, 1]));
    assert_eq!(b1.add(&b2.clone()), BigInt::from_vec(vec![1 << 32, 1]));
    assert_eq!(b1.add(&b2), BigInt::from_vec(vec![1 << 32, 1]));

    let b3 = BigInt::new(1 << 63);
    let b4 = BigInt::from_vec(vec![1 << 63, 1]);
    let b5 = BigInt::from_vec(vec![(1 << 63) - 1]);
    let b6 = BigInt::from_vec(vec![(1 << 63) + 1]);
    assert_eq!(b3.add(&b4), BigInt::from_vec(vec![0, 2]));
    assert_eq!(b3.add(&b5), BigInt::from_vec(vec![(1 << 63) - 1 + (1 << 63)]));
    assert_eq!(b3.add(&b6), BigInt::from_vec(vec![1, 1]));
}

#[test]
fn test_overflowing_sub() {
    assert_eq!(overflow_sub(3, 2, false), (1, false));
    assert_eq!(overflow_sub(3, 2, true), (0, false));
    assert_eq!(overflow_sub(3, 3, false), (0, false));
    assert_eq!(overflow_sub(3, 3, true), ((1 << 63) - 1 + (1 << 63), true));
}

#[test]
fn test_sub() {
    let max = (1 << 63) - 1 + (1 << 63);
    let b1 = BigInt::from_vec(vec![0, 0, 1]);
    let b2 = BigInt::from_vec(vec![1]);
    assert_eq!(b1.clone().sub(&b2.clone()), Some(BigInt::from_vec(vec![max, max])));
    assert_eq!(b1.clone().sub(&b2), Some(BigInt::from_vec(vec![max, max])));
    assert_eq!(b1.sub(&b2.clone()), Some(BigInt::from_vec(vec![max, max])));
    assert_eq!(b1.sub(&b2), Some(BigInt::from_vec(vec![max, max])));

    let b3 = BigInt::from_vec(vec![1, 1]);
    let b4 = BigInt::from_vec(vec![1]);
    let b5 = BigInt::from_vec(vec![0]);
    let b6 = BigInt::from_vec(vec![1, 2]);
    assert_eq!(b3.sub(&b4), Some(BigInt::from_vec(vec![0, 1])));
    assert_eq!(b3.sub(&b5), Some(BigInt::from_vec(vec![1, 1])));
    assert_eq!(b3.sub(&b6), None);
}

#[test]
fn bigint_queries() {
    let zero = BigInt::new(0);
    assert_eq!(zero.len(), 0);
    assert!(zero.test_invariant());
    assert_eq!(zero.smallest(), None);
    assert_eq!(zero.largest(), None);

    let trimmed = BigInt::from_vec(vec![7, 0, 0]);
    assert_eq!(trimmed.len(), 1);
    assert!(trimmed.test_invariant());

    let b = BigInt::from_vec(vec![4, 0, 9, 2]);
    assert_eq!(b.len(), 4);
    assert_eq!(b.non_zero_digits(), 3);
    assert_eq!(b.smallest(), Some(0));
    assert_eq!(b.largest(), Some(9));
}

#[test]
fn add_then_sub_round_trip() {
    let a = BigInt::from_vec(vec![u64::MAX, 3]);
    let b = BigInt::from_vec(vec![5, u64::MAX]);
    let sum = a.add(&b);
    assert_eq!(sum.sub(&b), Some(a.clone()));
    assert_eq!(sum.sub(&a), Some(b));
}
