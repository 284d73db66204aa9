use vstd::prelude::*;

use core::task::Waker;

use crate::mqtt::PostStep;
use crate::waker::{waker_clone, waker_wake};

verus! {

/// How a client hands messages over to its broker: by publishing them at once (`()`), or by
/// enqueueing them (`Enqueueing`).
pub trait PublishPolicy {

}

/// The policy of a client that enqueues its messages.
pub struct Enqueueing;

impl PublishPolicy for () {

}

impl PublishPolicy for Enqueueing {

}

/// A client `W` with the helper `U` that runs its blocking calls, or the policy `U` by
/// which it publishes.
pub struct AsyncClient<U, W>(W, U);

impl<U, W> AsyncClient<U, W> {
    /// The wrapped client.
    pub closed spec fn client(&self) -> W {
        self.0
    }

    /// The helper, or policy, the client runs with.
    pub closed spec fn unblocker(&self) -> U {
        self.1
    }

    pub fn new(unblocker: U, client: W) -> (r: Self)
        ensures
            r.client() == client,
            r.unblocker() == unblocker,
    {
        AsyncClient(client, unblocker)
    }
}

impl<C> AsyncClient<(), C> {
    /// The same client, enqueueing its messages from now on.
    pub fn into_enqueueing(self) -> (r: AsyncClient<Enqueueing, C>)
        ensures
            r.client() == self.client(),
    {
        AsyncClient::new(Enqueueing, self.0)
    }
}

impl<C> AsyncClient<Enqueueing, C> {
    /// The same client, publishing its messages at once from now on.
    pub fn into_publishing(self) -> (r: AsyncClient<(), C>)
        ensures
            r.client() == self.client(),
    {
        AsyncClient::new((), self.0)
    }
}

/// The state an asynchronous connection shares with its postbox: no event, a task waiting
/// for one, or an event received and not yet taken.
pub enum AsyncState<R, E> {
    Empty,
    Waiting(Waker),
    Received(Result<R, E>),
}

/// An asynchronous connection state with the waiting task's waker left out.
pub enum AsyncStatus<R, E> {
    Empty,
    Waiting,
    Received(Result<R, E>),
}

impl<R, E> AsyncState<R, E> {
    /// The state with the waker left out.
    pub open spec fn status(&self) -> AsyncStatus<R, E> {
        match self {
            AsyncState::Empty => AsyncStatus::Empty,
            AsyncState::Waiting(_) => AsyncStatus::Waiting,
            AsyncState::Received(ev) => AsyncStatus::Received(*ev),
        }
    }

    pub fn new() -> (r: Self)
        ensures
            r.status() == AsyncStatus::<R, E>::Empty,
    {
        AsyncState::Empty
    }
}

impl<R, E> Default for AsyncState<R, E> {
    fn default() -> (r: Self)
        ensures
            r.status() == AsyncStatus::<R, E>::Empty,
    {
        Self::new()
    }
}

/// The status of an optional state (`None`: the connection is closed).
pub open spec fn opt_status<R, E>(state: Option<AsyncState<R, E>>) -> Option<AsyncStatus<R, E>> {
    match state {
        Some(s) => Some(s.status()),
        None => None,
    }
}

/// The sending half of an asynchronous connection.
pub struct AsyncPostbox;

impl AsyncPostbox {
    pub fn new() -> AsyncPostbox {
        AsyncPostbox
    }

    /// One attempt to post `event`: when the connection is open and holds no event, stores
    /// it and wakes the task waiting for it, if any.
    pub fn post<R, E>(&mut self, state: &mut Option<AsyncState<R, E>>, event: Result<R, E>) -> (r:
        PostStep<Result<R, E>>)
        ensures
            match opt_status(*old(state)) {
                None => r is Closed && (*final(state)) is None,
                Some(AsyncStatus::Received(_)) => r == PostStep::Wait(event) && *final(state) == *old(
                    state,
                ),
                Some(_) => r is Posted && opt_status(*final(state)) == Some(
                    AsyncStatus::Received(event),
                ),
            },
    {
        let mut prev: Option<AsyncState<R, E>> = None;
        core::mem::swap(&mut prev, state);
        match prev {
            None => PostStep::Closed,
            Some(AsyncState::Received(ev)) => {
                *state = Some(AsyncState::Received(ev));
                PostStep::Wait(event)
            },
            Some(AsyncState::Waiting(waker)) => {
                *state = Some(AsyncState::Received(event));
                waker_wake(waker);
                PostStep::Posted
            },
            Some(AsyncState::Empty) => {
                *state = Some(AsyncState::Received(event));
                PostStep::Posted
            },
        }
    }
}

/// The outcome of polling for the next event: the event (`None` once the connection is
/// closed), or not yet.
pub enum NextPoll<T> {
    Ready(Option<T>),
    Pending,
}

/// A pending pull of the next event of an asynchronous connection.
pub struct NextFuture;

impl NextFuture {
    pub fn new() -> NextFuture {
        NextFuture
    }

    /// Takes the received event, if any; else registers `waker` to be woken by the next post.
    pub fn poll<R, E>(&mut self, state: &mut Option<AsyncState<R, E>>, waker: &Waker) -> (r: NextPoll<
        Result<R, E>,
    >)
        ensures
            match opt_status(*old(state)) {
                None => r == NextPoll::<Result<R, E>>::Ready(None) && (*final(state)) is None,
                Some(AsyncStatus::Received(ev)) => r == NextPoll::Ready(Some(ev)) && opt_status(
                    *final(state),
                ) == Some(AsyncStatus::<R, E>::Empty),
                Some(_) => r is Pending && opt_status(*final(state)) == Some(
                    AsyncStatus::<R, E>::Waiting,
                ),
            },
    {
        let mut prev: Option<AsyncState<R, E>> = None;
        core::mem::swap(&mut prev, state);
        match prev {
            None => NextPoll::Ready(None),
            Some(AsyncState::Received(ev)) => {
                *state = Some(AsyncState::Empty);
                NextPoll::Ready(Some(ev))
            },
            Some(_) => {
                *state = Some(AsyncState::Waiting(waker_clone(waker)));
                NextPoll::Pending
            },
        }
    }
}

} // verus!
