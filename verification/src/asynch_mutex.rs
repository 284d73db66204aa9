use vstd::prelude::*;

use core::task::Waker;

use crate::waker::WakerRegistration;

verus! {

/// The failure of an attempt to lock a mutex that is locked already.
#[derive(PartialEq, Eq, Clone, Copy, Debug, Structural)]
pub struct TryLockError;

impl TryLockError {
    /// The error's text.
    pub fn message(&self) -> (r: &'static str)
        ensures
            r@ == "TryLockError"@,
    {
        "TryLockError"
    }
}

/// A mutex for tasks: a task that finds it locked registers its waker, and is woken when
/// the holder unlocks it.
pub struct Mutex<W, T> {
    locked: bool,
    waker: W,
    inner: T,
}

impl<W: WakerRegistration, T> Mutex<W, T> {
    /// Whether some task holds the mutex.
    pub closed spec fn is_locked(&self) -> bool {
        self.locked
    }

    /// The value the mutex guards.
    pub closed spec fn value(&self) -> T {
        self.inner
    }

    /// Whether a task waits for the mutex.
    pub closed spec fn has_waiter(&self) -> bool {
        self.waker.has_waker()
    }

    /// Whether no further task can wait for the mutex.
    pub closed spec fn waiters_full(&self) -> bool {
        self.waker.is_full()
    }

    /// An unlocked mutex guarding `value`.
    pub fn new(value: T) -> (r: Self)
        ensures
            !r.is_locked(),
            r.value() == value,
            !r.has_waiter(),
    {
        Mutex { locked: false, waker: W::new(), inner: value }
    }

    /// Locks the mutex if it is free; fails, changing nothing, when it is locked.
    pub fn try_lock(&mut self) -> (r: Result<MutexGuard<'_, W, T>, TryLockError>)
        ensures
            r is Ok <==> !old(self).is_locked(),
            r is Err ==> *final(self) == *old(self),
            r matches Ok(g) ==> g.value() == old(self).value() && g.mutex().is_locked() && g.mutex().has_waiter()
                == old(self).has_waiter() && *final(self) == *final(g.mutex),
    {
        if self.locked {
            Err(TryLockError)
        } else {
            self.locked = true;
            Ok(MutexGuard { mutex: self })
        }
    }

    /// One attempt to lock the mutex for the task of `waker`: takes it when it is free,
    /// else registers `waker` to be woken when it is unlocked.
    pub fn poll_lock(&mut self, waker: &Waker) -> (r: bool)
        requires
            old(self).is_locked() ==> !old(self).waiters_full(),
        ensures
            r == !old(self).is_locked(),
            final(self).is_locked(),
            final(self).value() == old(self).value(),
            !r ==> final(self).has_waiter(),
    {
        if self.locked {
            self.waker.register(waker);
            false
        } else {
            self.locked = true;
            true
        }
    }

    /// Unlocks the mutex and wakes the tasks waiting for it.
    pub fn unlock(&mut self)
        ensures
            !final(self).is_locked(),
            final(self).value() == old(self).value(),
            !final(self).has_waiter(),
    {
        self.locked = false;
        self.waker.wake();
    }
}

/// The proof of holding a mutex, and the way to its value.
pub struct MutexGuard<'a, W, T> {
    pub mutex: &'a mut Mutex<W, T>,
}

impl<'a, W: WakerRegistration, T> MutexGuard<'a, W, T> {
    /// The value guarded.
    pub closed spec fn value(&self) -> T {
        self.mutex.inner
    }

    /// The mutex held, as it is now.
    pub closed spec fn mutex(&self) -> Mutex<W, T> {
        *self.mutex
    }

    /// The value guarded.
    pub fn get(&self) -> (r: &T)
        ensures
            *r == self.value(),
    {
        &self.mutex.inner
    }

    /// Replaces the value guarded.
    pub fn set(&mut self, value: T)
        ensures
            final(self).value() == value,
            final(self).mutex().is_locked() == old(self).mutex().is_locked(),
            final(self).mutex().has_waiter() == old(self).mutex().has_waiter(),
    {
        self.mutex.inner = value;
    }

    /// Gives the mutex up, waking the tasks waiting for it.
    pub fn unlock(self)
        ensures
            !final(self.mutex).is_locked(),
            !final(self.mutex).has_waiter(),
            final(self.mutex).value() == self.value(),
    {
        self.mutex.unlock()
    }
}

} // verus!
