use vstd::prelude::*;

use core::task::Waker;

use crate::waker::waker_wake_by_ref;

verus! {

/// A task's single pause: the first poll lets other tasks run, the second completes.
pub struct YieldNowFuture {
    yielded: bool,
}

impl YieldNowFuture {
    /// Whether the pause has happened.
    pub closed spec fn yielded(&self) -> bool {
        self.yielded
    }

    /// Polls the pause: the first time it wakes the task at once and is not ready; after
    /// that it is ready.
    pub fn poll(&mut self, waker: &Waker) -> (ready: bool)
        ensures
            ready == old(self).yielded(),
            final(self).yielded(),
    {
        if self.yielded {
            true
        } else {
            self.yielded = true;
            waker_wake_by_ref(waker);
            false
        }
    }
}

/// Yields once from the current task, letting other tasks run.
pub fn yield_now() -> (r: YieldNowFuture)
    ensures
        !r.yielded(),
{
    YieldNowFuture { yielded: false }
}

} // verus!
