use vstd::prelude::*;

use core::task::Waker;

use crate::waker::{waker_clone, waker_wake};

verus! {

/// The id the broker gives a message.
pub type MessageId = u32;

/// What an MQTT connection reports.
pub enum Event<M> {
    BeforeConnect,
    Connected(bool),
    Disconnected,
    Subscribed(MessageId),
    Unsubscribed(MessageId),
    Published(MessageId),
    Deleted(MessageId),
    Received(M),
}

/// Whether `out` is `event` with its message converted by `f` and every other report kept.
pub open spec fn converted_event<M, OM, F: Fn(&M) -> OM>(f: F, event: Event<M>, out: Event<OM>) -> bool {
    match event {
        Event::Received(m) => out matches Event::Received(o) && f.ensures((&m,), o),
        Event::BeforeConnect => out is BeforeConnect,
        Event::Connected(s) => out == Event::<OM>::Connected(s),
        Event::Disconnected => out is Disconnected,
        Event::Subscribed(id) => out == Event::<OM>::Subscribed(id),
        Event::Unsubscribed(id) => out == Event::<OM>::Unsubscribed(id),
        Event::Published(id) => out == Event::<OM>::Published(id),
        Event::Deleted(id) => out == Event::<OM>::Deleted(id),
    }
}

/// The same report with its message converted by `f`; every other report is kept.
pub fn convert_event<M, OM, F: Fn(&M) -> OM>(event: &Event<M>, f: &F) -> (r: Event<OM>)
    requires
        forall|m: &M| f.requires((m,)),
    ensures
        converted_event(*f, *event, r),
{
    match event {
        Event::Received(message) => {
            assert(f.requires((message,)));
            Event::Received(f(message))
        },
        Event::BeforeConnect => Event::BeforeConnect,
        Event::Connected(session) => Event::Connected(*session),
        Event::Disconnected => Event::Disconnected,
        Event::Subscribed(id) => Event::Subscribed(*id),
        Event::Unsubscribed(id) => Event::Unsubscribed(*id),
        Event::Published(id) => Event::Published(*id),
        Event::Deleted(id) => Event::Deleted(*id),
    }
}

/// The result of enqueueing a message, ready at once.
pub struct EnqueueFuture<E>(pub Result<MessageId, E>);

impl<E: Clone> EnqueueFuture<E> {
    /// The result: the message id, or a copy of the failure.
    pub fn poll(&self) -> (r: Result<MessageId, E>)
        ensures
            match self.0 {
                Ok(id) => r == Ok::<MessageId, E>(id),
                Err(e) => r matches Err(c) && cloned::<E>(e, c),
            },
    {
        match &self.0 {
            Ok(message_id) => Ok(*message_id),
            Err(err) => Err(err.clone()),
        }
    }
}

/// What a connection shares with the task reading it: the event posted and not yet done
/// with, the reading task, and whether the event has been handed over to it.
pub struct Payload<T> {
    event: Option<T>,
    waker: Option<Waker>,
    handed_over: bool,
}

impl<T> Payload<T> {
    /// The event posted.
    pub closed spec fn event(&self) -> Option<T> {
        self.event
    }

    /// Whether a reading task waits.
    pub closed spec fn has_waiter(&self) -> bool {
        self.waker is Some
    }

    /// Whether the event has been handed over to the reading task.
    pub closed spec fn handed_over(&self) -> bool {
        self.handed_over
    }

    /// Nothing posted.
    pub fn new() -> (r: Self)
        ensures
            r.event() is None,
            !r.has_waiter(),
            !r.handed_over(),
    {
        Payload { event: None, waker: None, handed_over: false }
    }

    fn wake_waiter(&mut self)
        ensures
            !final(self).has_waiter(),
            final(self).event() == old(self).event(),
            final(self).handed_over() == old(self).handed_over(),
    {
        let mut taken: Option<Waker> = None;
        core::mem::swap(&mut taken, &mut self.waker);
        if let Some(w) = taken {
            waker_wake(w);
        }
    }

    /// One attempt of the connection to post `event`: when the last event is still there,
    /// wakes the reader and hands `event` back (wait, then try again); else stores it.
    pub fn post(&mut self, event: T) -> (r: Option<T>)
        ensures
            old(self).event() is Some ==> r == Some(event) && final(self).event() == old(self).event()
                && !final(self).has_waiter(),
            old(self).event() is None ==> r is None && final(self).event() == Some(event),
            final(self).handed_over() == old(self).handed_over(),
    {
        if self.event.is_some() {
            self.wake_waiter();
            Some(event)
        } else {
            self.event = Some(event);
            None
        }
    }

    /// Whether the reader is done with the event posted; else wakes it (the connection
    /// waits, then asks again).
    pub fn consumed(&mut self) -> (r: bool)
        ensures
            r == old(self).event() is None,
            final(self).event() == old(self).event(),
            final(self).handed_over() == old(self).handed_over(),
    {
        if self.event.is_some() {
            self.wake_waiter();
            false
        } else {
            true
        }
    }
}

/// A pending read of the next event of a connection.
pub struct NextFuture;

impl NextFuture {
    pub fn new() -> NextFuture {
        NextFuture
    }

    /// Polls for the next event: a copy of it through the converters when one is posted
    /// (`Some`; `Some(None)` when the connection ended), recorded as handed over; else keeps
    /// the task's `waker` (`None`).
    pub fn poll<M, E, OM, OE, FM: Fn(&M) -> OM, FE: Fn(&E) -> OE>(
        &mut self,
        payload: &mut Payload<Option<Result<Event<M>, E>>>,
        waker: &Waker,
        message_converter: &FM,
        error_converter: &FE,
    ) -> (r: Option<Option<Result<Event<OM>, OE>>>)
        requires
            forall|m: &M| message_converter.requires((m,)),
            forall|e: &E| error_converter.requires((e,)),
        ensures
            match old(payload).event() {
                Some(ev) => final(payload).handed_over() && final(payload).event() == Some(ev)
                    && match ev {
                    Some(Ok(e)) => r matches Some(Some(Ok(o))) && converted_event(*message_converter, e, o),
                    Some(Err(e)) => r matches Some(Some(Err(o))) && error_converter.ensures((&e,), o),
                    None => r == Some(None::<Result<Event<OM>, OE>>),
                },
                None => r is None && final(payload).has_waiter() && final(payload).event() is None,
            },
    {
        match &payload.event {
            Some(event) => {
                let result = match event {
                    Some(Ok(ev)) => Some(Ok(convert_event(ev, message_converter))),
                    Some(Err(error)) => {
                        assert(error_converter.requires((error,)));
                        Some(Err(error_converter(error)))
                    },
                    None => None,
                };
                payload.handed_over = true;
                Some(result)
            },
            None => {
                payload.waker = Some(waker_clone(waker));
                None
            },
        }
    }

    /// Gives the read up: the task no longer waits, and an event handed over is done with.
    pub fn release<T>(&mut self, payload: &mut Payload<T>) -> (notify: bool)
        ensures
            !final(payload).has_waiter(),
            notify == old(payload).handed_over(),
            notify ==> final(payload).event() is None,
            !notify ==> final(payload).event() == old(payload).event(),
    {
        payload.waker = None;
        if payload.handed_over {
            payload.event = None;
            true
        } else {
            false
        }
    }
}

} // verus!
