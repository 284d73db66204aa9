use vstd::prelude::*;

use core::task::Waker;

use crate::seqs::{first_index, lemma_first_index, lemma_first_index_at};

verus! {

#[verifier::external_type_specification]
#[verifier::external_body]
pub struct ExWaker(Waker);

/// `Waker::will_wake`: whether waking `a` wakes the task `b` wakes; it compares the addresses
/// the wakers hold, so nothing is claimed of the answer.
#[verifier::external_body]
pub(crate) fn waker_will_wake(a: &Waker, b: &Waker) -> bool {
    a.will_wake(b)
}

/// `Waker::clone`: a waker for the same task; nothing is claimed of the value.
#[verifier::external_body]
pub(crate) fn waker_clone(w: &Waker) -> Waker {
    w.clone()
}

/// `Waker::wake`: schedules the task; nothing is claimed.
#[verifier::external_body]
pub(crate) fn waker_wake(w: Waker) {
    w.wake()
}

/// `Waker::wake_by_ref`: schedules the task, keeping the waker; nothing is claimed.
#[verifier::external_body]
pub(crate) fn waker_wake_by_ref(w: &Waker) {
    w.wake_by_ref()
}

/// Something a waiting task registers its waker with, to be woken later.
pub trait WakerRegistration: Sized {
    /// Whether no further waker can be registered.
    spec fn is_full(&self) -> bool;

    /// Whether some waker is registered.
    spec fn has_waker(&self) -> bool;

    /// An empty registration.
    fn new() -> (r: Self)
        ensures
            !r.has_waker(),
    ;

    /// Registers `waker`.
    fn register(&mut self, waker: &Waker)
        requires
            !old(self).is_full(),
        ensures
            final(self).has_waker(),
    ;

    /// Wakes the registered wakers and forgets them.
    fn wake(&mut self)
        ensures
            !final(self).has_waker(),
    ;
}

/// A registration of at most one waker.
#[derive(Debug)]
pub struct SingleWakerRegistration {
    waker: Option<Waker>,
}

impl SingleWakerRegistration {
    /// Whether a waker is registered.
    pub closed spec fn spec_occupied(&self) -> bool {
        self.waker is Some
    }

    /// An empty registration.
    pub fn new() -> (r: Self)
        ensures
            !r.spec_occupied(),
    {
        Self { waker: None }
    }

    /// Registers `w`; a waker registered before is kept when it wakes the same task, and is
    /// otherwise woken and replaced.
    pub fn register(&mut self, w: &Waker)
        ensures
            final(self).spec_occupied(),
    {
        let same = match &self.waker {
            Some(w2) => waker_will_wake(w2, w),
            None => false,
        };
        if !same {
            let mut new_waker = Some(waker_clone(w));
            core::mem::swap(&mut new_waker, &mut self.waker);
            if let Some(old_waker) = new_waker {
                waker_wake(old_waker);
            }
        }
    }

    /// Wakes the registered waker, if any, and forgets it.
    pub fn wake(&mut self)
        ensures
            !final(self).spec_occupied(),
    {
        let mut taken: Option<Waker> = None;
        core::mem::swap(&mut taken, &mut self.waker);
        if let Some(w) = taken {
            waker_wake(w);
        }
    }

    /// Whether a waker is registered.
    pub fn occupied(&self) -> (r: bool)
        ensures
            r == self.spec_occupied(),
    {
        self.waker.is_some()
    }
}

impl WakerRegistration for SingleWakerRegistration {
    open spec fn is_full(&self) -> bool {
        false
    }

    open spec fn has_waker(&self) -> bool {
        self.spec_occupied()
    }

    fn new() -> (r: Self) {
        SingleWakerRegistration::new()
    }

    fn register(&mut self, waker: &Waker) {
        SingleWakerRegistration::register(self, waker)
    }

    fn wake(&mut self) {
        SingleWakerRegistration::wake(self)
    }
}

/// A free slot of a multi-waker registration.
pub open spec fn slot_free() -> spec_fn(bool) -> bool {
    |occupied: bool| !occupied
}

/// A registration of up to `N` wakers.
pub struct MultiWakerRegistration<const N: usize> {
    wakers: Vec<SingleWakerRegistration>,
}

impl<const N: usize> MultiWakerRegistration<N> {
    /// Which of the `N` slots hold a waker.
    pub closed spec fn slots(&self) -> Seq<bool> {
        self.wakers@.map_values(|w: SingleWakerRegistration| w.spec_occupied())
    }

    /// An empty registration.
    pub fn new() -> (r: Self)
        ensures
            r.slots() == Seq::new(N as nat, |i: int| false),
    {
        let mut wakers: Vec<SingleWakerRegistration> = Vec::new();
        let mut i: usize = 0;
        while i < N
            invariant
                i <= N,
                wakers@.len() == i,
                forall|j: int| 0 <= j < i ==> !(#[trigger] wakers@[j]).spec_occupied(),
            decreases N - i,
        {
            wakers.push(SingleWakerRegistration::new());
            i += 1;
        }
        let r = Self { wakers };
        assert(r.slots() =~= Seq::new(N as nat, |i: int| false));
        r
    }

    /// Registers `w` in the first free slot; when every slot is taken, hands `w` back.
    pub fn register<'a>(&mut self, w: &'a Waker) -> (r: Result<(), &'a Waker>)
        ensures
            match first_index(old(self).slots(), slot_free()) {
                Some(i) => r is Ok && final(self).slots() == old(self).slots().update(i, true),
                None => r == Err::<(), &Waker>(w) && final(self).slots() == old(self).slots(),
            },
    {
        let n = self.wakers.len();
        let mut i: usize = 0;
        while i < n
            invariant
                n == self.wakers@.len(),
                i <= n,
                *self == *old(self),
                forall|j: int| 0 <= j < i ==> !(#[trigger] slot_free()(self.slots()[j])),
            decreases n - i,
        {
            if !self.wakers[i].occupied() {
                proof {
                    lemma_first_index_at(self.slots(), slot_free(), i as int);
                }
                self.wakers[i].register(w);
                assert(self.slots() =~= old(self).slots().update(i as int, true));
                return Ok(());
            }
            i += 1;
        }
        proof {
            lemma_first_index_at(self.slots(), slot_free(), n as int);
        }
        Err(w)
    }

    /// Wakes every registered waker and frees every slot.
    pub fn wake(&mut self)
        ensures
            final(self).slots() == Seq::new(old(self).slots().len(), |i: int| false),
    {
        let n = self.wakers.len();
        let mut i: usize = 0;
        while i < n
            invariant
                n == self.wakers@.len(),
                n == old(self).wakers@.len(),
                i <= n,
                forall|j: int| 0 <= j < i ==> !(#[trigger] self.wakers@[j]).spec_occupied(),
            decreases n - i,
        {
            self.wakers[i].wake();
            i += 1;
        }
        assert(self.slots() =~= Seq::new(old(self).slots().len(), |i: int| false));
    }
}

impl<const N: usize> WakerRegistration for MultiWakerRegistration<N> {
    open spec fn is_full(&self) -> bool {
        first_index(self.slots(), slot_free()) is None
    }

    open spec fn has_waker(&self) -> bool {
        exists|i: int| 0 <= i < self.slots().len() && self.slots()[i]
    }

    fn new() -> (r: Self) {
        let r = MultiWakerRegistration::new();
        assert(!r.has_waker()) by {
            assert forall|i: int| 0 <= i < r.slots().len() implies !r.slots()[i] by {}
        }
        r
    }

    fn register(&mut self, waker: &Waker) {
        let ghost s = self.slots();
        proof {
            lemma_first_index(s, slot_free());
        }
        let r = MultiWakerRegistration::register(self, waker);
        assert(self.slots()[first_index(s, slot_free()).unwrap()]);
    }

    fn wake(&mut self) {
        MultiWakerRegistration::wake(self);
    }
}

} // verus!
