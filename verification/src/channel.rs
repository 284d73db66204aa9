use vstd::prelude::*;

verus! {

/// A failure of one of two channels used together: of the first or of the second.
pub enum EitherError<A, B> {
    First(A),
    Second(B),
}

/// The sending side of a channel.
pub trait Sender {
    type Data;
    type Error;

    /// Whether this side never reports a failure.
    spec fn never_fails(&self) -> bool;

    /// Whether this side keeps a record of the values it sent, in `sent`.
    open spec fn records_sends(&self) -> bool {
        false
    }

    /// The values sent so far, oldest first, when this side keeps a record of them.
    open spec fn sent(&self) -> Seq<Self::Data> {
        Seq::empty()
    }

    /// Sends `value`.
    fn send(&mut self, value: Self::Data) -> (r: Result<(), Self::Error>)
        ensures
            old(self).never_fails() ==> r is Ok,
            r is Ok ==> final(self).never_fails() == old(self).never_fails(),
            r is Ok && old(self).records_sends() ==> final(self).records_sends() && final(self).sent()
                == old(self).sent().push(value),
    ;
}

/// The receiving side of a channel.
pub trait Receiver {
    type Data;
    type Error;

    /// Whether this side never reports a failure.
    spec fn never_fails(&self) -> bool;

    /// The values this side has still to deliver, in order.
    spec fn pending(&self) -> Seq<Self::Data>;

    /// Receives the next value: the first of those pending, which it no longer has.
    fn recv(&mut self) -> (r: Result<Self::Data, Self::Error>)
        ensures
            old(self).never_fails() ==> r is Ok,
            r matches Ok(v) ==> old(self).pending().len() > 0 && v == old(self).pending()[0]
                && final(self).pending() == old(self).pending().drop_first(),
    ;
}

/// A channel seen through `adapter`: values sent are converted before they go in, values
/// received are converted as they come out; a value the adapter maps to `None` is dropped.
pub struct AdapterChannel<C, F> {
    inner: C,
    adapter: F,
}

impl<C, F> AdapterChannel<C, F> {
    /// The adapted channel.
    pub closed spec fn inner(&self) -> C {
        self.inner
    }

    /// The conversion.
    pub closed spec fn adapter(&self) -> F {
        self.adapter
    }

    pub fn new(inner: C, adapter: F) -> (r: Self)
        ensures
            r.inner() == inner,
            r.adapter() == adapter,
    {
        AdapterChannel { inner, adapter }
    }
}

/// `channel` seen through `adapter`.
pub fn adapt<C, F>(channel: C, adapter: F) -> (r: AdapterChannel<C, F>)
    ensures
        r.inner() == channel,
        r.adapter() == adapter,
{
    AdapterChannel::new(channel, adapter)
}

/// Two channels used as one: a value sent goes to both.
pub struct MergedChannel<A, B> {
    first: A,
    second: B,
}

impl<A, B> MergedChannel<A, B> {
    /// The first channel.
    pub closed spec fn first(&self) -> A {
        self.first
    }

    /// The second channel.
    pub closed spec fn second(&self) -> B {
        self.second
    }

    pub fn new(first: A, second: B) -> (r: Self)
        ensures
            r.first() == first,
            r.second() == second,
    {
        MergedChannel { first, second }
    }

    /// These two channels merged with a third one.
    pub fn and<T>(self, third: T) -> (r: MergedChannel<Self, T>)
        ensures
            r.first() == self,
            r.second() == third,
    {
        MergedChannel::new(self, third)
    }
}

/// `first` and `second` used as one channel.
pub fn merge<A, B>(first: A, second: B) -> (r: MergedChannel<A, B>)
    ensures
        r.first() == first,
        r.second() == second,
{
    MergedChannel::new(first, second)
}

/// A channel that drops every value sent and never delivers one.
pub struct DummyChannel<T> {
    dropped: Ghost<Seq<T>>,
}

impl<T> DummyChannel<T> {
    /// The values sent to it so far.
    pub closed spec fn dropped(&self) -> Seq<T> {
        self.dropped@
    }

    pub fn new() -> (r: Self)
        ensures
            r.dropped() == Seq::<T>::empty(),
    {
        DummyChannel { dropped: Ghost(Seq::empty()) }
    }

    /// Drops `value`; a dummy channel never fails.
    pub fn send(&mut self, value: T) -> (r: Result<(), ()>)
        ensures
            r is Ok,
            final(self).dropped() == old(self).dropped().push(value),
    {
        proof {
            self.dropped@ = self.dropped@.push(value);
        }
        Ok(())
    }
}

/// A channel that drops everything sent to it.
pub fn dummy<T>() -> (r: DummyChannel<T>)
    ensures
        r.dropped() == Seq::<T>::empty(),
{
    DummyChannel::new()
}

impl<T> Sender for DummyChannel<T> {
    type Data = T;
    type Error = ();

    open spec fn never_fails(&self) -> bool {
        true
    }

    open spec fn records_sends(&self) -> bool {
        true
    }

    open spec fn sent(&self) -> Seq<T> {
        self.dropped()
    }

    fn send(&mut self, value: T) -> (r: Result<(), ()>)
        ensures
            final(self).dropped() == old(self).dropped().push(value),
    {
        DummyChannel::send(self, value)
    }
}

/// Sends `adapter(value)` through `sender`, or nothing when the adapter drops the value.
/// What the sender answers is returned.
pub fn send<S: Sender, P, F: Fn(P) -> Option<S::Data>>(sender: &mut S, value: P, adapter: &F) -> (r:
    Result<(), S::Error>)
    requires
        adapter.requires((value,)),
    ensures
        exists|converted: Option<S::Data>|
            #[trigger] adapter.ensures((value,), converted) && (converted is None ==> r is Ok && *final(sender)
                == *old(sender)) && (converted is Some && r is Ok && old(sender).records_sends()
                ==> final(sender).sent() == old(sender).sent().push(converted->0)),
        old(sender).never_fails() ==> r is Ok,
{
    let converted = adapter(value);
    let ghost conv = converted;
    let r = match converted {
        Some(v) => sender.send(v),
        None => Ok(()),
    };
    assert(adapter.ensures((value,), conv) && (conv is None ==> r is Ok && *sender == *old(sender))
        && (conv is Some && r is Ok && old(sender).records_sends() ==> sender.sent() == old(
        sender,
    ).sent().push(conv->0)));
    r
}

/// Receives one value from `receiver` and passes it through `adapter`: `None` when the
/// adapter drops it, in which case the caller receives again.
pub fn recv<R: Receiver, P, F: Fn(R::Data) -> Option<P>>(receiver: &mut R, adapter: &F) -> (r: Result<
    Option<P>,
    R::Error,
>)
    requires
        forall|d: R::Data| adapter.requires((d,)),
    ensures
        r matches Ok(out) ==> exists|d: R::Data| adapter.ensures((d,), out),
        r matches Ok(out) ==> old(receiver).pending().len() > 0 && adapter.ensures(
            (old(receiver).pending()[0],),
            out,
        ) && final(receiver).pending() == old(receiver).pending().drop_first(),
        old(receiver).never_fails() ==> r is Ok,
{
    let value = receiver.recv()?;
    Ok(adapter(value))
}

/// Sends a copy of `value` through `sender1`, then `value` through `sender2`; stops at the
/// first failure and says which side failed.
pub fn send_both<S1: Sender, S2: Sender<Data = S1::Data>>(
    sender1: &mut S1,
    sender2: &mut S2,
    value: S1::Data,
) -> (r: Result<(), EitherError<S1::Error, S2::Error>>)
    where
        S1::Data: Clone,
    ensures
        r matches Err(EitherError::First(_)) ==> *final(sender2) == *old(sender2)
            && !old(sender1).never_fails(),
        r matches Err(EitherError::Second(_)) ==> !old(sender2).never_fails(),
        old(sender1).never_fails() && old(sender2).never_fails() ==> r is Ok,
        !(r matches Err(EitherError::First(_))) && old(sender1).records_sends() ==> exists|c:
            S1::Data|
            cloned(value, c) && final(sender1).sent() == old(sender1).sent().push(c),
        r is Ok && old(sender2).records_sends() ==> final(sender2).sent() == old(sender2).sent().push(
            value,
        ),
{
    let copy = value.clone();
    let ghost c = copy;
    assert(cloned(value, c));
    match sender1.send(copy) {
        Ok(()) => {},
        Err(e) => {
            return Err(EitherError::First(e));
        },
    }
    match sender2.send(value) {
        Ok(()) => Ok(()),
        Err(e) => Err(EitherError::Second(e)),
    }
}

impl<C: Sender, F> AdapterChannel<C, F> {
    /// Sends `value` through the adapter into the inner channel.
    pub fn send_adapted<T>(&mut self, value: T) -> (r: Result<(), C::Error>)
        where
            F: Fn(T) -> Option<C::Data>,
        requires
            forall|t: T| old(self).adapter().requires((t,)),
        ensures
            exists|converted: Option<C::Data>|
                old(self).adapter().ensures((value,), converted) && (converted is None ==> r is Ok),
            exists|converted: Option<C::Data>|
                #[trigger] old(self).adapter().ensures((value,), converted) && (converted is None
                    ==> final(self).inner() == old(self).inner()) && (converted is Some && r is Ok
                    && old(self).inner().records_sends() ==> final(self).inner().sent() == old(
                    self,
                ).inner().sent().push(converted->0)),
            final(self).adapter() == old(self).adapter(),
            old(self).inner().never_fails() ==> r is Ok,
    {
        let ghost f = self.adapter;
        let ghost before = self.inner;
        assert(f == old(self).adapter());
        let r = send(&mut self.inner, value, &self.adapter);
        assert(exists|converted: Option<C::Data>|
            f.ensures((value,), converted) && (converted is None ==> r is Ok));
        assert(exists|converted: Option<C::Data>|
            #[trigger] f.ensures((value,), converted) && (converted is None ==> self.inner == before)
                && (converted is Some && r is Ok && before.records_sends() ==> self.inner.sent()
                == before.sent().push(converted->0)));
        r
    }
}

impl<C: Receiver, F> AdapterChannel<C, F> {
    /// Receives one value from the inner channel through the adapter (`None`: dropped).
    pub fn recv_adapted<T>(&mut self) -> (r: Result<Option<T>, C::Error>)
        where
            F: Fn(C::Data) -> Option<T>,
        requires
            forall|d: C::Data| old(self).adapter().requires((d,)),
        ensures
            r matches Ok(out) ==> exists|d: C::Data| old(self).adapter().ensures((d,), out),
            r matches Ok(out) ==> old(self).inner().pending().len() > 0 && old(self).adapter().ensures(
                (old(self).inner().pending()[0],),
                out,
            ) && final(self).inner().pending() == old(self).inner().pending().drop_first(),
            final(self).adapter() == old(self).adapter(),
            old(self).inner().never_fails() ==> r is Ok,
    {
        let ghost f = self.adapter;
        assert(f == old(self).adapter());
        let ghost before = old(self).inner();
        let r = recv(&mut self.inner, &self.adapter);
        assert(r matches Ok(out) ==> exists|d: C::Data| f.ensures((d,), out));
        assert(r matches Ok(out) ==> before.pending().len() > 0 && f.ensures((before.pending()[0],), out));
        r
    }
}

impl<A: Sender, B: Sender<Data = A::Data>> MergedChannel<A, B> where A::Data: Clone {
    /// Sends `value` to both channels, the first one first.
    pub fn send_merged(&mut self, value: A::Data) -> (r: Result<(), EitherError<A::Error, B::Error>>)
        ensures
            r matches Err(EitherError::First(_)) ==> final(self).second() == old(self).second()
                && !old(self).first().never_fails(),
            r matches Err(EitherError::Second(_)) ==> !old(self).second().never_fails(),
            old(self).first().never_fails() && old(self).second().never_fails() ==> r is Ok,
            r is Ok && old(self).first().records_sends() ==> exists|c: A::Data|
                cloned(value, c) && final(self).first().sent() == old(self).first().sent().push(c),
            r is Ok && old(self).second().records_sends() ==> final(self).second().sent() == old(
                self,
            ).second().sent().push(value),
    {
        send_both(&mut self.first, &mut self.second, value)
    }
}

} // verus!
