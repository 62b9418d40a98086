//! A counter shared between workers, guarded by a reader-writer lock.

use vstd::prelude::*;
use vstd::rwlock::RwLock;
use std::sync::Arc;

verus! {

/// A shared counter; clones all talk about the same cell.
#[derive(Clone)]
pub struct ConcurrentCounter {
    lock: Arc<RwLock<usize, spec_fn(usize) -> bool>>,
}

impl ConcurrentCounter {
    /// The lock places no bound on the stored value, so any result may be
    /// written back.
    pub closed spec fn wf(self) -> bool {
        forall|v: usize| (*self.lock).inv(v)
    }

    pub fn new(val: usize) -> (r: Self)
        ensures
            r.wf(),
    {
        let lock = RwLock::new(val, Ghost(|v: usize| true));
        ConcurrentCounter { lock: Arc::new(lock) }
    }

    /// Adds `by` to the shared value, wrapping on overflow. Another worker
    /// may change the value at any moment, so nothing is promised about a
    /// later read.
    pub fn increment(&self, by: usize)
        requires
            self.wf(),
    {
        let (counter, handle) = self.lock.acquire_write();
        handle.release_write(counter.wrapping_add(by));
    }

    /// A snapshot of the shared value at some moment during the call.
    pub fn get(&self) -> usize {
        let handle = self.lock.acquire_read();
        let counter = *handle.borrow();
        handle.release_read();
        counter
    }

    /// Adds `by` only when the value read equals `test`; reports whether it
    /// did, beside the value the cell was left with.
    pub fn compare_and_inc(&self, test: usize, by: usize) -> (r: (bool, usize))
        requires
            self.wf(),
        ensures
            r.0 ==> r.1 == test.wrapping_add(by),
            !r.0 ==> r.1 != test,
    {
        let (counter, handle) = self.lock.acquire_write();
        if counter == test {
            let updated = counter.wrapping_add(by);
            handle.release_write(updated);
            (true, updated)
        } else {
            handle.release_write(counter);
            (false, counter)
        }
    }
}

} // verus!
