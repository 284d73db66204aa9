use vstd::prelude::*;

use core::task::Waker;
use core::time::Duration;

use crate::waker::{SingleWakerRegistration, WakerRegistration};

verus! {

/// A notification from one side to a waiting task: raised by `notify`, consumed by the
/// poll that sees it. A new notification overrides one not yet seen.
pub struct Notification {
    waker: SingleWakerRegistration,
    notified: bool,
}

impl Notification {
    /// Whether a notification waits to be seen.
    pub closed spec fn notified(&self) -> bool {
        self.notified
    }

    /// Whether a task waits for the notification.
    pub closed spec fn has_waiter(&self) -> bool {
        self.waker.has_waker()
    }

    pub fn new() -> (r: Self)
        ensures
            !r.notified(),
            !r.has_waiter(),
    {
        Notification { waker: SingleWakerRegistration::new(), notified: false }
    }

    /// Forgets any notification and the waiting task.
    pub fn reset(&mut self)
        ensures
            !final(self).notified(),
            !final(self).has_waiter(),
    {
        self.notified = false;
        self.waker = SingleWakerRegistration::new();
    }

    /// Raises the notification and wakes the waiting task.
    pub fn notify(&mut self)
        ensures
            final(self).notified(),
            !final(self).has_waiter(),
    {
        self.notified = true;
        self.waker.wake();
    }

    /// One poll of the waiting task: `true` (and the notification consumed) when it was
    /// raised; otherwise `waker` is kept to be woken by the next one.
    pub fn poll_wait(&mut self, waker: &Waker) -> (ready: bool)
        ensures
            ready == old(self).notified(),
            !final(self).notified(),
            ready ==> !final(self).has_waiter(),
            !ready ==> final(self).has_waiter(),
    {
        self.waker.register(waker);
        if self.notified {
            self.notified = false;
            self.waker = SingleWakerRegistration::new();
            true
        } else {
            false
        }
    }
}

/// A timer that fires once.
pub trait OnceTimer {
    type Error;

    /// Whether this timer never reports a failure.
    spec fn never_fails(&self) -> bool;

    /// Cancels the timer; says whether it was scheduled.
    fn cancel(&mut self) -> (r: Result<bool, Self::Error>)
        ensures
            old(self).never_fails() ==> r is Ok,
            r is Ok ==> final(self).never_fails() == old(self).never_fails(),
    ;

    /// Schedules the timer to fire once, after `duration`.
    fn after(&mut self, duration: Duration) -> (r: Result<(), Self::Error>)
        ensures
            old(self).never_fails() ==> r is Ok,
    ;
}

/// A timer that fires again and again.
pub trait PeriodicTimer: OnceTimer {
    /// Schedules the timer to fire every `duration`.
    fn every(&mut self, duration: Duration) -> (r: Result<(), Self::Error>)
        ensures
            old(self).never_fails() ==> r is Ok,
    ;
}

/// A timer waited for by a task, through a notification its callback raises.
pub struct AsyncTimer<T> {
    timer: T,
    notification: Notification,
}

impl<T> AsyncTimer<T> {
    /// The notification the timer's callback raises.
    pub closed spec fn notification(&self) -> Notification {
        self.notification
    }

    /// The timer.
    pub closed spec fn timer(&self) -> T {
        self.timer
    }

    pub fn new(timer: T) -> (r: Self)
        ensures
            r.timer() == timer,
            !r.notification().notified(),
    {
        AsyncTimer { timer, notification: Notification::new() }
    }

    /// The timer fired: its callback raises the notification.
    pub fn fire(&mut self)
        ensures
            final(self).notification().notified(),
            final(self).timer() == old(self).timer(),
    {
        self.notification.notify()
    }

    /// One poll of the waiting task: whether the timer fired since the last poll.
    pub fn poll_tick(&mut self, waker: &Waker) -> (ready: bool)
        ensures
            ready == old(self).notification().notified(),
            !final(self).notification().notified(),
            final(self).timer() == old(self).timer(),
    {
        self.notification.poll_wait(waker)
    }
}

impl<T: OnceTimer> AsyncTimer<T> {
    /// Cancels the timer, forgets any firing not yet seen, and schedules it once, after
    /// `duration`; fails as the timer fails, stopping at the first failure.
    pub fn after(&mut self, duration: Duration) -> (r: Result<(), T::Error>)
        ensures
            r is Ok ==> !final(self).notification().notified() && !final(self).notification().has_waiter(),
            old(self).timer().never_fails() ==> r is Ok,
    {
        match self.timer.cancel() {
            Ok(_) => {},
            Err(e) => {
                return Err(e);
            },
        }
        self.notification.reset();
        self.timer.after(duration)
    }
}

impl<T: PeriodicTimer> AsyncTimer<T> {
    /// Cancels the timer, forgets any firing not yet seen, and schedules it every
    /// `duration`; fails as the timer fails, stopping at the first failure.
    pub fn every(&mut self, duration: Duration) -> (r: Result<(), T::Error>)
        ensures
            r is Ok ==> !final(self).notification().notified() && !final(self).notification().has_waiter(),
            old(self).timer().never_fails() ==> r is Ok,
    {
        match self.timer.cancel() {
            Ok(_) => {},
            Err(e) => {
                return Err(e);
            },
        }
        self.notification.reset();
        self.timer.every(duration)
    }
}

/// A timer service whose timers are waited for by tasks.
pub struct AsyncTimerService<T>(T);

impl<T> AsyncTimerService<T> {
    /// The blocking timer service.
    pub closed spec fn service(&self) -> T {
        self.0
    }

    pub fn new(timer_service: T) -> (r: Self)
        ensures
            r.service() == timer_service,
    {
        AsyncTimerService(timer_service)
    }
}

} // verus!
