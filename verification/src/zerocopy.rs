use vstd::prelude::*;

verus! {

/// The slot of a rendezvous channel of one element: empty, holding an element not yet
/// released by the receiver, or closed for good by the receiver.
pub enum StateData<T> {
    Empty,
    Data(T),
    Quit,
}

/// What one attempt to put into the slot did: stored it (wake the receiver, then wait until
/// the element is released), found the slot still taken (wait, then try again with the
/// element handed back), or found the channel closed.
pub enum SetStep<T> {
    Stored,
    Busy(T),
    Closed,
}

/// What the receiver found in the slot: an element, nothing yet (wait, then look again),
/// or the channel closed.
pub enum GetStep<R> {
    Data(R),
    Wait,
    Quit,
}

/// The state after an attempt to store `data` into `state`, when it goes through.
pub open spec fn state_after_set<T>(state: StateData<T>, data: StateData<T>) -> StateData<T> {
    match state {
        StateData::Empty => data,
        _ => state,
    }
}

/// A rendezvous channel of one element between a sending and a receiving task; the
/// receiver works on the element in place, and the sender waits until it is released.
pub struct Channel<T> {
    state: StateData<T>,
}

impl<T> Channel<T> {
    /// The slot.
    pub closed spec fn state(&self) -> StateData<T> {
        self.state
    }

    /// An empty channel.
    pub fn new() -> (r: Self)
        ensures
            r.state() is Empty,
    {
        Channel { state: StateData::Empty }
    }

    /// One attempt to store `data` (an element, or the end) into the slot.
    pub fn set_data(&mut self, data: StateData<T>) -> (r: SetStep<StateData<T>>)
        ensures
            match old(self).state() {
                StateData::Empty => r is Stored && final(self).state() == data,
                StateData::Quit => r is Closed && final(self).state() is Quit,
                StateData::Data(_) => r == SetStep::Busy(data) && final(self).state() == old(
                    self,
                ).state(),
            },
            final(self).state() == (if r is Stored {
                state_after_set(old(self).state(), data)
            } else {
                old(self).state()
            }),
    {
        match self.state {
            StateData::Empty => {
                self.state = data;
                SetStep::Stored
            },
            StateData::Quit => SetStep::Closed,
            StateData::Data(_) => SetStep::Busy(data),
        }
    }

    /// One attempt to hand `data` to the receiver.
    pub fn set(&mut self, data: T) -> (r: SetStep<StateData<T>>)
        ensures
            match old(self).state() {
                StateData::Empty => r is Stored && final(self).state() == StateData::Data(data),
                StateData::Quit => r is Closed && final(self).state() is Quit,
                StateData::Data(_) => r == SetStep::Busy(StateData::Data(data)) && final(self).state()
                    == old(self).state(),
            },
    {
        self.set_data(StateData::Data(data))
    }

    /// One attempt to tell the receiver that nothing more comes.
    pub fn quit(&mut self) -> (r: SetStep<StateData<T>>)
        ensures
            match old(self).state() {
                StateData::Empty => r is Stored && final(self).state() is Quit,
                StateData::Quit => r is Closed && final(self).state() is Quit,
                StateData::Data(_) => r == SetStep::Busy(StateData::<T>::Quit) && final(self).state()
                    == old(self).state(),
            },
    {
        self.set_data(StateData::Quit)
    }

    /// Whether the element stored has been released (or the channel closed): the sender's
    /// wait is over.
    pub fn released(&self) -> (r: bool)
        ensures
            r == !(self.state() is Data),
    {
        match self.state {
            StateData::Data(_) => false,
            _ => true,
        }
    }

    /// The receiver looks at the slot: the element in place, to work on, when there is one.
    pub fn get(&mut self) -> (r: GetStep<&mut T>)
        ensures
            match old(self).state() {
                StateData::Data(v) => r matches GetStep::Data(d) && *d == v && final(self).state()
                    == StateData::Data(*final(d)),
                StateData::Empty => r is Wait && final(self).state() == old(self).state(),
                StateData::Quit => r is Quit && final(self).state() == old(self).state(),
            },
    {
        match &mut self.state {
            StateData::Data(d) => GetStep::Data(d),
            StateData::Empty => GetStep::Wait,
            StateData::Quit => GetStep::Quit,
        }
    }

    /// The receiver releases the element; says whether there was one (then the sender is
    /// to be woken).
    pub fn done(&mut self) -> (r: bool)
        ensures
            r == old(self).state() is Data,
            r ==> final(self).state() is Empty,
            !r ==> final(self).state() == old(self).state(),
    {
        match self.state {
            StateData::Data(_) => {
                self.state = StateData::Empty;
                true
            },
            _ => false,
        }
    }

    /// The receiver goes away: the channel is closed for good.
    pub fn close(&mut self)
        ensures
            final(self).state() is Quit,
    {
        self.state = StateData::Quit;
    }
}

/// An element stored into an empty slot is what the receiver finds there; once closed,
/// the slot refuses every element and every further end; a slot still holding an element
/// refuses the next one until it is released.
pub proof fn lemma_set_then_get<T>(data: T, held: T, next: StateData<T>)
    ensures
        state_after_set(StateData::<T>::Empty, StateData::Data(data)) == StateData::Data(data),
        state_after_set(StateData::<T>::Quit, next) is Quit,
        state_after_set(StateData::Data(held), next) == StateData::Data(held),
{
}

} // verus!
