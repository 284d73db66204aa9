use vstd::prelude::*;

use core::task::Waker;

use crate::nonblocking_signal::{SignalError, SignalStatus, State, WaitPoll, status_after_poll};

verus! {

/// A signal: a slot for the latest value sent from one task to another, which a waiting
/// task is woken to take.
pub trait Signal: Sized {
    type Data;

    /// The state of the signal.
    spec fn status(&self) -> SignalStatus<Self::Data>;

    /// A signal with nothing signaled.
    fn new() -> (r: Self)
        ensures
            r.status() == SignalStatus::<Self::Data>::Empty,
    ;

    /// Forgets any value and waiting task.
    fn reset(&mut self)
        ensures
            final(self).status() == SignalStatus::<Self::Data>::Empty,
    ;

    /// Signals `data`, replacing any value not yet taken and waking the waiting task.
    fn signal(&mut self, data: Self::Data)
        ensures
            final(self).status() == SignalStatus::Signaled(data),
    ;

    /// Takes the signaled value, if any; else registers `waker` to be woken by the next
    /// signal. Fails when a task that `waker` does not wake is already waiting.
    fn poll_wait(&mut self, waker: &Waker) -> (r: Result<WaitPoll<Self::Data>, SignalError>)
        ensures
            match old(self).status() {
                SignalStatus::Empty => r matches Ok(WaitPoll::Pending),
                SignalStatus::Waiting => r matches Ok(WaitPoll::Pending) || r == Err::<
                    WaitPoll<Self::Data>,
                    SignalError,
                >(SignalError::WakerOverflow),
                SignalStatus::Signaled(v) => r matches Ok(WaitPoll::Ready(x)) && x == v,
            },
            r is Ok ==> final(self).status() == status_after_poll(old(self).status()),
            r is Err ==> final(self).status() == old(self).status(),
    ;

    /// Takes the signaled value, if any, without waiting.
    fn try_get(&mut self) -> (r: Option<Self::Data>)
        ensures
            match old(self).status() {
                SignalStatus::Signaled(v) => r == Some(v) && final(self).status()
                    == SignalStatus::<Self::Data>::Empty,
                _ => r is None && final(self).status() == old(self).status(),
            },
    ;
}

/// A signal kept in a lock: its state is read and changed whole, under the lock.
pub struct MutexSignal<T>(State<T>);

impl<T> MutexSignal<T> {
    /// The state of the signal.
    pub closed spec fn view_status(&self) -> SignalStatus<T> {
        self.0.status()
    }

    pub fn new() -> (r: Self)
        ensures
            r.view_status() == SignalStatus::<T>::Empty,
    {
        MutexSignal(State::Empty)
    }

    /// Whether a value is waiting to be taken.
    pub fn signaled(&self) -> (r: bool)
        ensures
            r == self.view_status() is Signaled,
    {
        match &self.0 {
            State::Signaled(_) => true,
            _ => false,
        }
    }
}

impl<T> Default for MutexSignal<T> {
    fn default() -> (r: Self)
        ensures
            r.view_status() == SignalStatus::<T>::Empty,
    {
        MutexSignal::new()
    }
}

impl<T> Signal for MutexSignal<T> {
    type Data = T;

    open spec fn status(&self) -> SignalStatus<T> {
        self.view_status()
    }

    fn new() -> (r: Self) {
        MutexSignal::new()
    }

    fn reset(&mut self) {
        self.0 = State::Empty;
    }

    fn signal(&mut self, data: T) {
        self.0.signal(data)
    }

    fn poll_wait(&mut self, waker: &Waker) -> (r: Result<WaitPoll<T>, SignalError>) {
        self.0.poll_wait(waker)
    }

    fn try_get(&mut self) -> (r: Option<T>) {
        self.0.try_get()
    }
}

/// The sending side of a signal: each value sent is signaled.
pub struct SignalSender<'a, S: Signal>(&'a mut S);

impl<'a, S: Signal> SignalSender<'a, S> {
    /// The signal sent through.
    pub closed spec fn signal_status(&self) -> SignalStatus<S::Data> {
        self.0.status()
    }

    pub fn new(signal: &'a mut S) -> (r: Self)
        ensures
            r.signal_status() == old(signal).status(),
    {
        SignalSender(signal)
    }

    /// Signals `value`; sending through a signal never fails.
    pub fn send(&mut self, value: S::Data)
        ensures
            final(self).signal_status() == SignalStatus::Signaled(value),
    {
        self.0.signal(value)
    }
}

/// The receiving side of a signal: each value received is a value signaled.
pub struct SignalReceiver<'a, S: Signal>(&'a mut S);

impl<'a, S: Signal> SignalReceiver<'a, S> {
    /// The signal received from.
    pub closed spec fn signal_status(&self) -> SignalStatus<S::Data> {
        self.0.status()
    }

    pub fn new(signal: &'a mut S) -> (r: Self)
        ensures
            r.signal_status() == old(signal).status(),
    {
        SignalReceiver(signal)
    }

    /// One attempt to receive: the signaled value, or a registration of `waker`.
    pub fn recv(&mut self, waker: &Waker) -> (r: Result<WaitPoll<S::Data>, SignalError>)
        ensures
            old(self).signal_status() matches SignalStatus::Signaled(v) ==> r matches Ok(
                WaitPoll::Ready(x),
            ) && x == v,
            old(self).signal_status() is Empty ==> r matches Ok(WaitPoll::Pending),
            r is Ok ==> final(self).signal_status() == status_after_poll(old(self).signal_status()),
    {
        self.0.poll_wait(waker)
    }
}

/// The signal as the sending side of a channel.
pub fn as_sender<'a, S: Signal>(signal: &'a mut S) -> (r: SignalSender<'a, S>)
    ensures
        r.signal_status() == old(signal).status(),
{
    SignalSender::new(signal)
}

/// The signal as the receiving side of a channel.
pub fn as_receiver<'a, S: Signal>(signal: &'a mut S) -> (r: SignalReceiver<'a, S>)
    ensures
        r.signal_status() == old(signal).status(),
{
    SignalReceiver::new(signal)
}

} // verus!
