use rgrep::counter::ConcurrentCounter;

#[test]
fn counting() {
    let counter = ConcurrentCounter::new(0);
    counter.increment(2);
    counter.increment(3);
    assert_eq!(counter.get(), 5);
}

#[test]
fn clones_share_the_cell() {
    let counter = ConcurrentCounter::new(10);
    let other = counter.clone();
    other.increment(5);
    assert_eq!(counter.get(), 15);
}

#[test]
fn compare_and_inc_only_on_match() {
    let counter = ConcurrentCounter::new(10);
    assert_eq!(counter.compare_and_inc(9, 5), (false, 10));
    assert_eq!(counter.get(), 10);
    assert_eq!(counter.compare_and_inc(10, 5), (true, 15));
    assert_eq!(counter.get(), 15);
}
