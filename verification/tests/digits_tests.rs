use rgrep::bigint::BigInt;
use rgrep::digits::print_digits_v1;

#[test]
fn test_iter() {
    let b = BigInt::from_vec(vec![1, 2, 3]);
    let mut iter = b.iter();
    assert_eq!(iter.next(), Some(3));
    assert_eq!(iter.next(), Some(2));
    assert_eq!(iter.next(), Some(1));
    assert_eq!(iter.next(), None);
}

#[test]
fn test_iter_ldf() {
    let b = BigInt::from_vec(vec![1, 2, 3]);
    let mut iter = b.iter_ldf();
    assert_eq!(iter.next(), Some(1));
    assert_eq!(iter.next(), Some(2));
    assert_eq!(iter.next(), Some(3));
    assert_eq!(iter.next(), None);
    assert_eq!(iter.next(), None);
}

#[test]
fn digit_lines_most_significant_first() {
    let b = BigInt::from_vec(vec![1, 2]);
    let lines = print_digits_v1(&b);
    assert_eq!(lines, vec!["2".to_string(), "1".to_string()]);
}
