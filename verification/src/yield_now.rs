//! The cooperative yield point: the first poll suspends once, the next
//! completes. The waker plumbing around this decision lives with the executor.
use vstd::prelude::*;

verus! {

pub struct YieldNow {
    pub yielded: bool,
}

impl YieldNow {
    pub fn new() -> (r: YieldNow)
        ensures
            !r.yielded,
    {
        YieldNow { yielded: false }
    }

    /// One poll: ready exactly when an earlier poll already suspended, and
    /// after the call a further poll will be ready.
    pub fn poll_step(&mut self) -> (ready: bool)
        ensures
            ready == old(self).yielded,
            final(self).yielded,
    {
        if self.yielded {
            true
        } else {
            self.yielded = true;
            false
        }
    }
}

} // verus!
