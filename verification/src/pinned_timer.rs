use vstd::prelude::*;

use core::time::Duration;

use crate::event_bus::Postbox;

verus! {

/// A failure of a pinned timer: of the event bus that carries the timer events, or of the
/// timer service.
pub enum Error<E, T> {
    EventBusError(E),
    TimerError(T),
}

/// The callbacks of the live timers, each under the id its timer was given, and the id the
/// next timer gets.
pub struct State<C> {
    timers_callbacks: Vec<(u32, C)>,
    next_id: u32,
}

impl<C> State<C> {
    /// The live timers, in the order they were added.
    pub closed spec fn entries(&self) -> Seq<(u32, C)> {
        self.timers_callbacks@
    }

    /// The id the next timer gets.
    pub closed spec fn next_id(&self) -> u32 {
        self.next_id
    }

    /// Every id is below the next one, and no two timers share one.
    pub open spec fn wf(&self) -> bool {
        &&& forall|i: int| 0 <= i < self.entries().len() ==> #[trigger] self.entries()[i].0 < self.next_id()
        &&& forall|i: int, j: int|
            0 <= i < j < self.entries().len() ==> #[trigger] self.entries()[i].0 != #[trigger] self.entries()[j].0
    }

    /// Whether a live timer has the id `id`.
    pub open spec fn has(&self, id: u32) -> bool {
        exists|i: int| 0 <= i < self.entries().len() && #[trigger] self.entries()[i].0 == id
    }

    /// Where the timer with the id `id` stands.
    pub open spec fn index_of(&self, id: u32) -> int {
        choose|i: int| 0 <= i < self.entries().len() && #[trigger] self.entries()[i].0 == id
    }

    /// The callback of the timer with the id `id`.
    pub open spec fn callback_of(&self, id: u32) -> C {
        self.entries()[self.index_of(id)].1
    }

    /// In a well-formed state, the timer with an id stands at one place only.
    pub proof fn lemma_index_of(&self, id: u32, i: int)
        requires
            self.wf(),
            0 <= i < self.entries().len(),
            self.entries()[i].0 == id,
        ensures
            self.has(id),
            self.index_of(id) == i,
    {
        let k = self.index_of(id);
        assert(0 <= k < self.entries().len() && self.entries()[k].0 == id);
        if k < i {
            assert(self.entries()[k].0 != self.entries()[i].0);
        } else if i < k {
            assert(self.entries()[i].0 != self.entries()[k].0);
        }
    }

    /// No timers; the first gets the id `0`.
    pub fn new() -> (r: Self)
        ensures
            r.wf(),
            r.entries() == Seq::<(u32, C)>::empty(),
            r.next_id() == 0,
    {
        State { timers_callbacks: Vec::new(), next_id: 0 }
    }

    /// Where the timer with the id `timer_id` stands.
    fn position(&self, timer_id: u32) -> (r: usize)
        requires
            self.wf(),
            self.has(timer_id),
        ensures
            r == self.index_of(timer_id),
            r < self.entries().len(),
    {
        let mut i: usize = 0;
        while i < self.timers_callbacks.len()
            invariant
                i <= self.entries().len(),
                self.wf(),
                self.has(timer_id),
                forall|j: int| 0 <= j < i ==> #[trigger] self.entries()[j].0 != timer_id,
            decreases self.entries().len() - i,
        {
            if self.timers_callbacks[i].0 == timer_id {
                proof {
                    self.lemma_index_of(timer_id, i as int);
                }
                return i;
            }
            i = i + 1;
        }
        proof {
            let k = self.index_of(timer_id);
            assert(self.entries()[k].0 == timer_id);
        }
        i
    }

    /// A copy of the callback of the timer with the id `timer_id`.
    pub fn callback_ref(&self, timer_id: u32) -> (r: C)
        where
            C: Clone,
        requires
            self.wf(),
            self.has(timer_id),
        ensures
            cloned::<C>(self.callback_of(timer_id), r),
    {
        let i = self.position(timer_id);
        self.timers_callbacks[i].1.clone()
    }

    /// Adds a timer with `callback` and gives it the next id.
    pub fn add(&mut self, callback: C) -> (id: u32)
        requires
            old(self).wf(),
            old(self).next_id() < u32::MAX,
        ensures
            final(self).wf(),
            id == old(self).next_id(),
            !old(self).has(id),
            final(self).entries() == old(self).entries().push((id, callback)),
            final(self).next_id() == id + 1,
            final(self).has(id),
            final(self).callback_of(id) == callback,
    {
        let timer_id = self.next_id;
        self.timers_callbacks.push((timer_id, callback));
        self.next_id = self.next_id + 1;
        proof {
            let n = self.entries().len() - 1;
            assert(self.entries()[n].0 == timer_id);
            assert(forall|i: int|
                0 <= i < n ==> #[trigger] self.entries()[i] == old(self).entries()[i]);
            self.lemma_index_of(timer_id, n);
        }
        timer_id
    }

    /// Removes the timer with the id `timer_id` and gives back its callback.
    pub fn remove(&mut self, timer_id: u32) -> (r: C)
        requires
            old(self).wf(),
            old(self).has(timer_id),
        ensures
            final(self).wf(),
            r == old(self).callback_of(timer_id),
            final(self).entries() == old(self).entries().remove(old(self).index_of(timer_id)),
            final(self).next_id() == old(self).next_id(),
            !final(self).has(timer_id),
    {
        let i = self.position(timer_id);
        let (_, callback) = self.timers_callbacks.remove(i);
        proof {
            let o = old(self).entries();
            let e = self.entries();
            assert forall|j: int| 0 <= j < e.len() implies #[trigger] e[j].0 != timer_id by {
                if j < i {
                    assert(e[j] == o[j]);
                    assert(o[j].0 != o[i as int].0);
                } else {
                    assert(e[j] == o[j + 1]);
                    assert(o[i as int].0 != o[j + 1].0);
                }
            }
            assert forall|a: int, b: int| 0 <= a < b < e.len() implies #[trigger] e[a].0
                != #[trigger] e[b].0 by {
                let oa = if a < i { a } else { a + 1 };
                let ob = if b < i { b } else { b + 1 };
                assert(e[a] == o[oa]);
                assert(e[b] == o[ob]);
                assert(o[oa].0 != o[ob].0);
            }
            assert forall|j: int| 0 <= j < e.len() implies #[trigger] e[j].0 < self.next_id() by {
                if j < i {
                    assert(e[j] == o[j]);
                } else {
                    assert(e[j] == o[j + 1]);
                }
            }
        }
        callback
    }
}

/// Removing one timer leaves every other timer, with its callback, where it was found.
pub proof fn lemma_remove_keeps_others<C>(before: State<C>, after: State<C>, id: u32, other: u32)
    requires
        before.wf(),
        after.wf(),
        before.has(id),
        after.entries() == before.entries().remove(before.index_of(id)),
        other != id,
    ensures
        after.has(other) == before.has(other),
        before.has(other) ==> after.callback_of(other) == before.callback_of(other),
{
    let k = before.index_of(id);
    before.lemma_index_of(id, k);
    let o = before.entries();
    let e = after.entries();
    if before.has(other) {
        let j = before.index_of(other);
        before.lemma_index_of(other, j);
        assert(j != k);
        let jj = if j < k { j } else { j - 1 };
        assert(e[jj] == o[j]);
        after.lemma_index_of(other, jj);
    }
    if after.has(other) {
        let jj = after.index_of(other);
        assert(0 <= jj < e.len() && e[jj].0 == other);
        let j = if jj < k { jj } else { jj + 1 };
        assert(e[jj] == o[j]);
        assert(before.has(other));
    }
}

/// A timer just added is found under its id with the callback it was added with, and every
/// timer there before keeps its id and callback.
pub proof fn lemma_add_keeps_others<C>(before: State<C>, after: State<C>, id: u32, callback: C, other: u32)
    requires
        before.wf(),
        after.wf(),
        id == before.next_id(),
        after.entries() == before.entries().push((id, callback)),
        before.has(other),
    ensures
        other != id,
        after.has(other),
        after.callback_of(other) == before.callback_of(other),
{
    let j = before.index_of(other);
    before.lemma_index_of(other, j);
    assert(after.entries()[j] == before.entries()[j]);
    after.lemma_index_of(other, j);
}

/// A timer service whose timers call back once.
pub trait OnceTimerService {
    type Timer;
    type Error;

    /// A timer that calls `callback` once, after `duration`.
    fn after<F: Fn()>(&self, duration: Duration, callback: F) -> (r: Result<Self::Timer, Self::Error>);
}

/// A timer service whose timers call back again and again.
pub trait PeriodicTimerService {
    type Timer;
    type Error;

    /// A timer that calls `callback` every `duration`.
    fn every<F: Fn()>(&self, duration: Duration, callback: F) -> (r: Result<Self::Timer, Self::Error>);
}

/// A timer of a pinned timer service: the timer of the underlying service and the id its
/// callback is kept under.
pub struct Timer<T> {
    inner_timer: T,
    id: u32,
}

impl<T> Timer<T> {
    /// The id the timer's callback is kept under.
    pub closed spec fn id(&self) -> u32 {
        self.id
    }

    /// The timer of the underlying service.
    pub closed spec fn inner_timer(&self) -> T {
        self.inner_timer
    }

    /// The timer of the underlying service.
    pub fn inner(&self) -> (r: &T)
        ensures
            *r == self.inner_timer(),
    {
        &self.inner_timer
    }
}

/// Timers whose callbacks run where the event bus delivers their events, not where the timer
/// service fires: a firing timer posts its id to the bus, and the bus's subscriber runs the
/// callback kept under that id.
pub struct Pinned<C, T, P> {
    timer_service: T,
    postbox: P,
    state: State<C>,
}

impl<C, T, P> Pinned<C, T, P> {
    /// The callbacks kept.
    pub closed spec fn state(&self) -> State<C> {
        self.state
    }

    /// No timers yet.
    pub fn new(timer_service: T, postbox: P) -> (r: Self)
        ensures
            r.state().wf(),
            r.state().entries() == Seq::<(u32, C)>::empty(),
            r.state().next_id() == 0,
    {
        Pinned { timer_service, postbox, state: State::new() }
    }

    /// Runs on the bus when a one-shot timer fired: its callback, removed from the kept ones.
    pub fn take_fired(&mut self, timer_id: u32) -> (r: C)
        requires
            old(self).state().wf(),
            old(self).state().has(timer_id),
        ensures
            final(self).state().wf(),
            r == old(self).state().callback_of(timer_id),
            !final(self).state().has(timer_id),
    {
        self.state.remove(timer_id)
    }

    /// Runs on the bus when a periodic timer fired: a copy of its callback, which stays kept.
    pub fn fired_callback(&self, timer_id: u32) -> (r: C)
        where
            C: Clone,
        requires
            self.state().wf(),
            self.state().has(timer_id),
        ensures
            cloned::<C>(self.state().callback_of(timer_id), r),
    {
        self.state.callback_ref(timer_id)
    }

    /// Forgets the callback of a timer that goes away.
    pub fn drop_timer<X>(&mut self, timer: Timer<X>) -> (r: C)
        requires
            old(self).state().wf(),
            old(self).state().has(timer.id()),
        ensures
            final(self).state().wf(),
            r == old(self).state().callback_of(timer.id()),
            !final(self).state().has(timer.id()),
    {
        self.state.remove(timer.id)
    }
}

impl<C, T: OnceTimerService, P: Postbox<u32> + Clone> Pinned<C, T, P> {
    /// A timer that, after `duration`, has `callback` run on the bus. The callback is kept
    /// under a new id, also when the timer service fails.
    pub fn after(&mut self, duration: Duration, callback: C) -> (r: Result<Timer<T::Timer>, Error<P::Error, T::Error>>)
        requires
            old(self).state().wf(),
            old(self).state().next_id() < u32::MAX,
        ensures
            final(self).state().wf(),
            final(self).state().entries() == old(self).state().entries().push(
                (old(self).state().next_id(), callback),
            ),
            final(self).state().next_id() == old(self).state().next_id() + 1,
            r matches Ok(t) ==> t.id() == old(self).state().next_id() && final(self).state().callback_of(
                t.id(),
            ) == callback,
            r matches Err(e) ==> e is TimerError,
    {
        let timer_id = self.state.add(callback);
        let postbox = self.postbox.clone();
        let fire = move || {
            let _ = postbox.post(&timer_id, None);
        };
        match self.timer_service.after(duration, fire) {
            Ok(inner_timer) => Ok(Timer { inner_timer, id: timer_id }),
            Err(e) => Err(Error::TimerError(e)),
        }
    }
}

impl<C, T: PeriodicTimerService, P: Postbox<u32> + Clone> Pinned<C, T, P> {
    /// A timer that, every `duration`, has `callback` run on the bus. The callback is kept
    /// under a new id, also when the timer service fails.
    pub fn every(&mut self, duration: Duration, callback: C) -> (r: Result<Timer<T::Timer>, Error<P::Error, T::Error>>)
        requires
            old(self).state().wf(),
            old(self).state().next_id() < u32::MAX,
        ensures
            final(self).state().wf(),
            final(self).state().entries() == old(self).state().entries().push(
                (old(self).state().next_id(), callback),
            ),
            final(self).state().next_id() == old(self).state().next_id() + 1,
            r matches Ok(t) ==> t.id() == old(self).state().next_id() && final(self).state().callback_of(
                t.id(),
            ) == callback,
            r matches Err(e) ==> e is TimerError,
    {
        let timer_id = self.state.add(callback);
        let postbox = self.postbox.clone();
        let fire = move || {
            let _ = postbox.post(&timer_id, None);
        };
        match self.timer_service.every(duration, fire) {
            Ok(inner_timer) => Ok(Timer { inner_timer, id: timer_id }),
            Err(e) => Err(Error::TimerError(e)),
        }
    }
}

} // verus!
