use vstd::prelude::*;

verus! {

/// The slot through which one event passes from the client's callback to the connection:
/// empty, or holding an event not yet taken.
pub struct ConnState<M, E>(pub Option<Result<M, E>>);

impl<M, E> Default for ConnState<M, E> {
    fn default() -> (r: Self)
        ensures
            r.0 is None,
    {
        ConnState(None)
    }
}

/// The state a postbox and a connection share; `None` once the connection is closed.
/// Whoever holds it holds it under one lock, and each change is followed by a wake-up of
/// the other side.
pub struct ConnStateGuard<S> {
    pub state: Option<S>,
}

impl<S> ConnStateGuard<S> {
    /// An open connection in `state`.
    pub fn new(state: S) -> (r: Self)
        ensures
            r.state == Some(state),
    {
        ConnStateGuard { state: Some(state) }
    }

    /// Closes the connection: postbox and connection give up from now on.
    pub fn close(&mut self)
        ensures
            final(self).state is None,
    {
        self.state = None;
    }
}

impl<S: Default> ConnStateGuard<S> {
    /// An open connection in the default state.
    pub fn new_default() -> (r: Self)
        ensures
            r.state is Some,
    {
        Self::new(S::default())
    }
}

impl<S: Default> Default for ConnStateGuard<S> {
    fn default() -> (r: Self)
        ensures
            r.state is Some,
    {
        Self::new(S::default())
    }
}

/// What a post did: handed the event over, found the slot still full (wait for the
/// connection to take the last event, then post the returned event again), or found the
/// connection closed (the event is dropped).
pub enum PostStep<T> {
    Posted,
    Wait(T),
    Closed,
}

/// What a pull of the next event did: took an event, found none (wait for the postbox, then
/// pull again), or found the connection closed.
pub enum NextStep<T> {
    Event(T),
    Wait,
    Closed,
}

/// The state after posting `event` into `state`, when the post goes through.
pub open spec fn state_after_post<M, E>(state: Option<ConnState<M, E>>, event: Result<M, E>) -> Option<
    ConnState<M, E>,
> {
    match state {
        Some(ConnState(None)) => Some(ConnState(Some(event))),
        _ => state,
    }
}

/// The event a pull takes from `state`, if any.
pub open spec fn next_event<M, E>(state: Option<ConnState<M, E>>) -> Option<Result<M, E>> {
    match state {
        Some(ConnState(Some(ev))) => Some(ev),
        _ => None,
    }
}

/// The state after a pull from `state`.
pub open spec fn state_after_next<M, E>(state: Option<ConnState<M, E>>) -> Option<ConnState<M, E>> {
    match state {
        Some(_) => Some(ConnState(None)),
        None => None,
    }
}

/// The sending half: posts the client's events for the connection to take.
pub struct Postbox;

impl Postbox {
    pub fn new() -> Postbox {
        Postbox
    }

    /// One attempt to post `event` into the shared state. After `Posted` the other side is
    /// to be woken; after `Wait` the caller waits for a change and tries again.
    pub fn post<M, E>(&mut self, guard: &mut ConnStateGuard<ConnState<M, E>>, event: Result<M, E>) -> (r:
        PostStep<Result<M, E>>)
        ensures
            match old(guard).state {
                None => r is Closed && final(guard).state is None,
                Some(ConnState(Some(_))) => r == PostStep::Wait(event) && final(guard).state == old(
                    guard,
                ).state,
                Some(ConnState(None)) => r is Posted && final(guard).state == Some(
                    ConnState(Some(event)),
                ),
            },
            final(guard).state == (if r is Posted {
                state_after_post(old(guard).state, event)
            } else {
                old(guard).state
            }),
    {
        match &guard.state {
            None => PostStep::Closed,
            Some(ConnState(Some(_))) => PostStep::Wait(event),
            Some(ConnState(None)) => {
                guard.state = Some(ConnState(Some(event)));
                PostStep::Posted
            },
        }
    }
}

/// The receiving half: takes the events the postbox posted, one at a time.
pub struct Connection;

impl Connection {
    pub fn new() -> Connection {
        Connection
    }

    /// One attempt to take the next event from the shared state. After `Event` the postbox
    /// is to be woken; after `Wait` the caller waits for a change and tries again; `Closed`
    /// ends the stream of events.
    pub fn next<M, E>(&mut self, guard: &mut ConnStateGuard<ConnState<M, E>>) -> (r: NextStep<
        Result<M, E>,
    >)
        ensures
            match old(guard).state {
                None => r is Closed && final(guard).state is None,
                Some(ConnState(Some(ev))) => r == NextStep::Event(ev) && final(guard).state == Some(
                    ConnState::<M, E>(None),
                ),
                Some(ConnState(None)) => r is Wait && final(guard).state == old(guard).state,
            },
            final(guard).state == state_after_next(old(guard).state),
            r matches NextStep::Event(ev) ==> next_event(old(guard).state) == Some(ev),
    {
        let mut pulled: Option<ConnState<M, E>> = None;
        core::mem::swap(&mut pulled, &mut guard.state);
        match pulled {
            None => NextStep::Closed,
            Some(ConnState(Some(ev))) => {
                guard.state = Some(ConnState(None));
                NextStep::Event(ev)
            },
            Some(ConnState(None)) => {
                guard.state = Some(ConnState(None));
                NextStep::Wait
            },
        }
    }
}

/// An event posted into an open, empty slot is the next event the connection takes, and
/// the slot is empty again after it.
pub proof fn lemma_post_then_next<M, E>(event: Result<M, E>)
    ensures
        next_event(state_after_post(Some(ConnState::<M, E>(None)), event)) == Some(event),
        state_after_next(state_after_post(Some(ConnState::<M, E>(None)), event)) == Some(
            ConnState::<M, E>(None),
        ),
{
}

/// A post never overwrites an event not yet taken: the state stays as it was.
pub proof fn lemma_post_keeps_unconsumed<M, E>(waiting: Result<M, E>, event: Result<M, E>)
    ensures
        state_after_post(Some(ConnState::<M, E>(Some(waiting))), event) == Some(ConnState::<M, E>(Some(waiting))),
        next_event(state_after_post(Some(ConnState::<M, E>(Some(waiting))), event)) == Some(waiting),
{
}

/// Once closed, the shared state stays closed: posts and pulls leave it closed and take
/// nothing from it.
pub proof fn lemma_closed_stays_closed<M, E>(event: Result<M, E>)
    ensures
        state_after_post(None::<ConnState<M, E>>, event) is None,
        state_after_next(None::<ConnState<M, E>>) is None,
        next_event(None::<ConnState<M, E>>) is None,
{
}

} // verus!
