use rgrep::queue::{BoundedQueue, Received};

#[test]
fn backpressure_bound() {
    let mut q: BoundedQueue<u32> = BoundedQueue::new(2);
    assert!(q.try_send(10).is_ok());
    assert!(q.try_send(11).is_ok());
    // the queue is full: the producer gets its item back and cannot run ahead
    assert_eq!(q.try_send(12), Err(12));
    assert_eq!(q.try_send(12), Err(12));
    // one receive frees one slot
    assert!(matches!(q.receive(), Received::Item(10)));
    assert!(q.try_send(12).is_ok());
    assert_eq!(q.try_send(13), Err(13));
}

#[test]
fn fifo_order_and_closure() {
    let mut q: BoundedQueue<u32> = BoundedQueue::new(4);
    assert!(matches!(q.receive(), Received::Empty));
    assert!(q.try_send(1).is_ok());
    assert!(q.try_send(2).is_ok());
    q.close();
    // a closed queue takes nothing more
    assert_eq!(q.try_send(3), Err(3));
    // buffered items drain in send order before closure is reported
    assert!(matches!(q.receive(), Received::Item(1)));
    assert!(matches!(q.receive(), Received::Item(2)));
    assert!(matches!(q.receive(), Received::Closed));
    // closing is idempotent
    q.close();
    assert!(matches!(q.receive(), Received::Closed));
}
