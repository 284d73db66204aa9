use vstd::prelude::*;

use core::task::Waker;

use crate::waker::{waker_clone, waker_wake, waker_will_wake};

verus! {

/// The state of a signal: nothing yet, a task waiting, or a value waiting to be taken.
pub enum State<T> {
    Empty,
    Waiting(Waker),
    Signaled(T),
}

/// A signal state with the waiting task's waker left out.
pub enum SignalStatus<T> {
    Empty,
    Waiting,
    Signaled(T),
}

/// The outcome of polling a signal: its value, or not yet.
pub enum WaitPoll<T> {
    Ready(T),
    Pending,
}

/// Why polling a signal failed: another task is already waiting on it.
#[derive(Debug, Clone, Copy, PartialEq, Eq, Structural)]
pub enum SignalError {
    WakerOverflow,
}

impl<T> State<T> {
    /// The state with the waker left out.
    pub open spec fn status(&self) -> SignalStatus<T> {
        match self {
            State::Empty => SignalStatus::Empty,
            State::Waiting(_) => SignalStatus::Waiting,
            State::Signaled(v) => SignalStatus::Signaled(*v),
        }
    }

    /// Stores `val`, waking the waiting task, if any.
    pub fn signal(&mut self, val: T)
        ensures
            final(self).status() == SignalStatus::Signaled(val),
    {
        let mut prev = State::Signaled(val);
        core::mem::swap(&mut prev, self);
        if let State::Waiting(waker) = prev {
            waker_wake(waker);
        }
    }

    /// Takes the value, if one is waiting; else registers `waker` to be woken by the next
    /// signal. Fails when a task that `waker` does not wake is already waiting.
    pub fn poll_wait(&mut self, waker: &Waker) -> (r: Result<WaitPoll<T>, SignalError>)
        ensures
            match old(self).status() {
                SignalStatus::Empty => r matches Ok(WaitPoll::Pending) && final(self).status()
                    == SignalStatus::<T>::Waiting,
                SignalStatus::Waiting => (r matches Ok(WaitPoll::Pending) || r == Err::<WaitPoll<T>, SignalError>(
                    SignalError::WakerOverflow,
                )) && final(self).status() == SignalStatus::<T>::Waiting,
                SignalStatus::Signaled(v) => r matches Ok(WaitPoll::Ready(x)) && x == v
                    && final(self).status() == SignalStatus::<T>::Empty,
            },
    {
        let mut prev = State::Empty;
        core::mem::swap(&mut prev, self);
        match prev {
            State::Empty => {
                *self = State::Waiting(waker_clone(waker));
                Ok(WaitPoll::Pending)
            },
            State::Waiting(w) => {
                let same = waker_will_wake(&w, waker);
                *self = State::Waiting(w);
                if same {
                    Ok(WaitPoll::Pending)
                } else {
                    Err(SignalError::WakerOverflow)
                }
            },
            State::Signaled(v) => Ok(WaitPoll::Ready(v)),
        }
    }

    /// Takes the value, if one is waiting.
    pub fn try_get(&mut self) -> (r: Option<T>)
        ensures
            match old(self).status() {
                SignalStatus::Signaled(v) => r == Some(v) && final(self).status() == SignalStatus::<T>::Empty,
                _ => r is None && final(self).status() == old(self).status(),
            },
    {
        let mut prev = State::Empty;
        core::mem::swap(&mut prev, self);
        match prev {
            State::Signaled(v) => Some(v),
            other => {
                *self = other;
                None
            },
        }
    }
}

/// A signal carrying values of type `T` from one task to another.
pub struct Signal<T> {
    state: State<T>,
}

impl<T> Signal<T> {
    /// The state of the signal.
    pub closed spec fn status(&self) -> SignalStatus<T> {
        self.state.status()
    }

    /// A signal with nothing signaled.
    pub fn new() -> (r: Self)
        ensures
            r.status() == SignalStatus::<T>::Empty,
    {
        Signal { state: State::Empty }
    }

    /// Signals `val`, replacing any value not yet taken and waking the waiting task.
    pub fn signal(&mut self, val: T)
        ensures
            final(self).status() == SignalStatus::Signaled(val),
    {
        self.state.signal(val)
    }

    /// Forgets any value and waiting task.
    pub fn reset(&mut self)
        ensures
            final(self).status() == SignalStatus::<T>::Empty,
    {
        self.state = State::Empty;
    }

    /// Takes the signaled value, if any; else registers `waker` to be woken by the next signal.
    /// Fails when a task that `waker` does not wake is already waiting.
    pub fn poll_wait(&mut self, waker: &Waker) -> (r: Result<WaitPoll<T>, SignalError>)
        ensures
            match old(self).status() {
                SignalStatus::Empty => r matches Ok(WaitPoll::Pending) && final(self).status()
                    == SignalStatus::<T>::Waiting,
                SignalStatus::Waiting => (r matches Ok(WaitPoll::Pending) || r == Err::<WaitPoll<T>, SignalError>(
                    SignalError::WakerOverflow,
                )) && final(self).status() == SignalStatus::<T>::Waiting,
                SignalStatus::Signaled(v) => r matches Ok(WaitPoll::Ready(x)) && x == v
                    && final(self).status() == SignalStatus::<T>::Empty,
            },
            r is Ok ==> final(self).status() == status_after_poll(old(self).status()),
    {
        self.state.poll_wait(waker)
    }

    /// Whether a value is waiting to be taken.
    pub fn signaled(&self) -> (r: bool)
        ensures
            r == self.status() is Signaled,
    {
        match &self.state {
            State::Signaled(_) => true,
            _ => false,
        }
    }
}

impl<T> Default for Signal<T> {
    fn default() -> (r: Self)
        ensures
            r.status() == SignalStatus::<T>::Empty,
    {
        Self::new()
    }
}

/// What a successful poll leaves behind: a signaled value is taken, an empty signal gets a
/// waiting task, and a waiting task stays.
pub open spec fn status_after_poll<T>(st: SignalStatus<T>) -> SignalStatus<T> {
    match st {
        SignalStatus::Signaled(_) => SignalStatus::Empty,
        _ => SignalStatus::Waiting,
    }
}

/// After a signal, the next poll takes exactly the value signaled, whatever state the signal
/// was in, and leaves the signal empty; a second poll then waits.
pub proof fn lemma_signal_then_poll<T>(v: T)
    ensures
        status_after_poll(SignalStatus::Signaled(v)) == SignalStatus::<T>::Empty,
        status_after_poll(status_after_poll(SignalStatus::Signaled(v))) == SignalStatus::<T>::Waiting,
{
}

} // verus!
