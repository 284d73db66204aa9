use vstd::prelude::*;

use core::task::Waker;
use core::time::Duration;

use crate::waker::{waker_clone, waker_wake};

verus! {

/// Where events of type `P` are posted to the bus.
pub trait Postbox<P> {
    type Error;

    /// Whether this postbox never reports a failure.
    spec fn never_fails(&self) -> bool;

    /// Whether `r` is an answer this postbox may give to a post of `payload` waiting at
    /// most `wait`.
    spec fn post_answer(&self, payload: P, wait: Option<Duration>, r: Result<bool, Self::Error>) -> bool;

    /// Posts `payload`, waiting at most `wait` (forever when `None`) for room on the bus;
    /// says whether it was posted.
    fn post(&self, payload: &P, wait: Option<Duration>) -> (r: Result<bool, Self::Error>)
        ensures
            self.never_fails() ==> r is Ok,
            self.post_answer(*payload, wait, r),
    ;
}

/// What hands out postboxes for events of type `P`.
pub trait PostboxProvider<P> {
    type Error;
    type Postbox: Postbox<P, Error = Self::Error>;

    /// Whether this provider always hands out a postbox.
    spec fn never_fails(&self) -> bool;

    fn postbox(&self) -> (r: Result<Self::Postbox, Self::Error>)
        ensures
            self.never_fails() ==> r is Ok,
    ;
}

/// A postbox used from tasks: its blocking posts run through the helper `U`.
pub struct AsyncPostbox<U, PB> {
    unblocker: U,
    blocking_postbox: PB,
}

impl<U, PB> AsyncPostbox<U, PB> {
    /// The helper that runs the blocking posts.
    pub closed spec fn unblocker(&self) -> U {
        self.unblocker
    }

    /// The blocking postbox.
    pub closed spec fn blocking_postbox(&self) -> PB {
        self.blocking_postbox
    }

    pub fn new(unblocker: U, blocking_postbox: PB) -> (r: Self)
        ensures
            r.unblocker() == unblocker,
            r.blocking_postbox() == blocking_postbox,
    {
        AsyncPostbox { unblocker, blocking_postbox }
    }

    /// Posts `value` through the blocking postbox, waiting at most `duration`; fails as the
    /// postbox fails.
    pub fn send_blocking<P>(&self, value: P, duration: Option<Duration>) -> (r: Result<(), PB::Error>)
        where
            PB: Postbox<P>,
        ensures
            self.blocking_postbox().never_fails() ==> r is Ok,
            exists|answer: Result<bool, PB::Error>|
                #![trigger self.blocking_postbox().post_answer(value, duration, answer)]
                {
                    &&& self.blocking_postbox().post_answer(value, duration, answer)
                    &&& r is Ok <==> answer is Ok
                    &&& r matches Err(e) ==> answer == Err::<bool, PB::Error>(e)
                },
    {
        let answer = self.blocking_postbox.post(&value, duration);
        assert(self.blocking_postbox().post_answer(value, duration, answer));
        match answer {
            Ok(_) => Ok(()),
            Err(e) => Err(e),
        }
    }
}

/// An event bus `E` used from tasks, with the helper `U` that runs its blocking calls.
pub struct AsyncEventBus<U, E> {
    unblocker: U,
    event_bus: E,
}

impl<U, E> AsyncEventBus<U, E> {
    /// The helper that runs the blocking calls.
    pub closed spec fn unblocker(&self) -> U {
        self.unblocker
    }

    /// The blocking event bus.
    pub closed spec fn event_bus(&self) -> E {
        self.event_bus
    }

    pub fn new(unblocker: U, event_bus: E) -> (r: Self)
        ensures
            r.unblocker() == unblocker,
            r.event_bus() == event_bus,
    {
        AsyncEventBus { unblocker, event_bus }
    }

    /// A postbox of the bus, used from tasks with (a copy of) the bus's helper; fails as
    /// the bus fails to hand out a postbox.
    pub fn postbox<P>(&self) -> (r: Result<AsyncPostbox<U, E::Postbox>, E::Error>)
        where
            U: Clone,
            E: PostboxProvider<P>,
        ensures
            r matches Ok(pb) ==> cloned::<U>(self.unblocker(), pb.unblocker()),
            self.event_bus().never_fails() ==> r is Ok,
    {
        match self.event_bus.postbox() {
            Ok(blocking_postbox) => Ok(AsyncPostbox::new(self.unblocker.clone(), blocking_postbox)),
            Err(e) => Err(e),
        }
    }
}

/// What a subscription shares with the bus's callback: the subscription itself, the event
/// delivered and not yet taken, and the task waiting for one.
pub struct SubscriptionState<P, S> {
    subscription: Option<S>,
    value: Option<P>,
    waker: Option<Waker>,
}

impl<P, S> SubscriptionState<P, S> {
    /// The event waiting to be taken.
    pub closed spec fn value(&self) -> Option<P> {
        self.value
    }

    /// Whether a task waits for an event.
    pub closed spec fn has_waiter(&self) -> bool {
        self.waker is Some
    }

    /// The subscription kept alive by the state.
    pub closed spec fn subscription(&self) -> Option<S> {
        self.subscription
    }

    /// No subscription yet, no event, no task waiting.
    pub fn new() -> (r: Self)
        ensures
            r.value() is None,
            !r.has_waiter(),
            r.subscription() is None,
    {
        SubscriptionState { subscription: None, value: None, waker: None }
    }

    /// Keeps `subscription` alive with the state.
    pub fn set_subscription(&mut self, subscription: S)
        ensures
            final(self).subscription() == Some(subscription),
            final(self).value() == old(self).value(),
            final(self).has_waiter() == old(self).has_waiter(),
    {
        self.subscription = Some(subscription);
    }

    /// Wakes the waiting task, if any, and forgets it.
    fn wake_waiter(&mut self)
        ensures
            !final(self).has_waiter(),
            final(self).value() == old(self).value(),
            final(self).subscription() == old(self).subscription(),
    {
        let mut taken: Option<Waker> = None;
        core::mem::swap(&mut taken, &mut self.waker);
        if let Some(w) = taken {
            waker_wake(w);
        }
    }

    /// One attempt of the bus's callback to deliver `payload`: when the last event is still
    /// there, wakes the task that is to take it and says `false` (the callback waits, then
    /// tries again); else stores a copy of `payload`, wakes the waiting task and says `true`.
    pub fn deliver(&mut self, payload: &P) -> (delivered: bool)
        where
            P: Clone,
        ensures
            delivered == old(self).value() is None,
            !final(self).has_waiter(),
            final(self).subscription() == old(self).subscription(),
            !delivered ==> final(self).value() == old(self).value(),
            delivered ==> (final(self).value() matches Some(v) && cloned::<P>(*payload, v)),
    {
        if self.value.is_some() {
            self.wake_waiter();
            false
        } else {
            self.value = Some(payload.clone());
            self.wake_waiter();
            true
        }
    }

    /// One poll of a task for the next event: takes it when there is one, else registers
    /// `waker` to be woken by the next delivery.
    pub fn poll_next(&mut self, waker: &Waker) -> (r: Option<P>)
        ensures
            r == old(self).value(),
            final(self).value() is None,
            final(self).subscription() == old(self).subscription(),
            r is None ==> final(self).has_waiter(),
            r is Some ==> final(self).has_waiter() == old(self).has_waiter(),
    {
        let mut taken: Option<P> = None;
        core::mem::swap(&mut taken, &mut self.value);
        if taken.is_none() {
            self.waker = Some(waker_clone(waker));
        }
        taken
    }

    /// Forgets the waiting task: its wait was given up.
    pub fn cancel_wait(&mut self)
        ensures
            !final(self).has_waiter(),
            final(self).value() == old(self).value(),
            final(self).subscription() == old(self).subscription(),
    {
        self.waker = None;
    }
}

/// A pending wait of a task for the next event of a subscription.
pub struct NextFuture;

impl NextFuture {
    pub fn new() -> NextFuture {
        NextFuture
    }

    /// Polls for the next event of `state`: the event when one was delivered; else the
    /// task's `waker` is kept for the next delivery.
    pub fn poll<P, S>(&mut self, state: &mut SubscriptionState<P, S>, waker: &Waker) -> (r: Option<P>)
        ensures
            r == old(state).value(),
            final(state).value() is None,
            r is None ==> final(state).has_waiter(),
    {
        state.poll_next(waker)
    }

    /// Gives the wait up.
    pub fn cancel<P, S>(&mut self, state: &mut SubscriptionState<P, S>)
        ensures
            !final(state).has_waiter(),
            final(state).value() == old(state).value(),
    {
        state.cancel_wait()
    }
}

} // verus!
