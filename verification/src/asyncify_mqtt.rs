use vstd::prelude::*;

verus! {

/// How often a message is to reach its subscribers.
#[derive(Debug, Clone, Copy, PartialEq, Eq, Structural)]
pub enum QoS {
    AtMostOnce,
    AtLeastOnce,
    ExactlyOnce,
}

/// The id a client gives a message it hands to its broker.
pub type MessageId = u32;

/// A message handed to a broker: its topic, quality of service, retain flag and payload.
pub type MessageRecord = (Seq<char>, QoS, bool, Seq<u8>);

/// A client that publishes messages at once.
pub trait Publish {
    type Error;

    /// The messages published so far, oldest first.
    spec fn published(&self) -> Seq<MessageRecord>;

    /// Whether `r` is an answer this client may give to publishing the message `m`.
    spec fn publish_answer(&self, m: MessageRecord, r: Result<MessageId, Self::Error>) -> bool;

    /// Publishes `payload` on `topic`.
    fn publish(&mut self, topic: &str, qos: QoS, retain: bool, payload: &[u8]) -> (r: Result<MessageId, Self::Error>)
        ensures
            old(self).publish_answer((topic@, qos, retain, payload@), r),
            r is Ok ==> final(self).published() == old(self).published().push((topic@, qos, retain, payload@)),
    ;
}

/// A client that enqueues messages, to be sent later.
pub trait Enqueue {
    type Error;

    /// The messages enqueued so far, oldest first.
    spec fn enqueued(&self) -> Seq<MessageRecord>;

    /// Whether `r` is an answer this client may give to enqueueing the message `m`.
    spec fn enqueue_answer(&self, m: MessageRecord, r: Result<MessageId, Self::Error>) -> bool;

    /// Enqueues `payload` for `topic`.
    fn enqueue(&mut self, topic: &str, qos: QoS, retain: bool, payload: &[u8]) -> (r: Result<MessageId, Self::Error>)
        ensures
            old(self).enqueue_answer((topic@, qos, retain, payload@), r),
            r is Ok ==> final(self).enqueued() == old(self).enqueued().push((topic@, qos, retain, payload@)),
    ;
}

/// A client that subscribes to topics.
pub trait Client {
    type Error;

    /// The subscriptions (with their quality of service) and unsubscriptions (`None`) so far.
    spec fn subscriptions(&self) -> Seq<(Seq<char>, Option<QoS>)>;

    /// Whether `r` is an answer this client may give to subscribing to `topic` with `qos`
    /// (`None`: unsubscribing).
    spec fn subscription_answer(&self, topic: Seq<char>, qos: Option<QoS>, r: Result<MessageId, Self::Error>) -> bool;

    /// Subscribes to `topic`.
    fn subscribe(&mut self, topic: &str, qos: QoS) -> (r: Result<MessageId, Self::Error>)
        ensures
            old(self).subscription_answer(topic@, Some(qos), r),
            r is Ok ==> final(self).subscriptions() == old(self).subscriptions().push((topic@, Some(qos))),
    ;

    /// Unsubscribes from `topic`.
    fn unsubscribe(&mut self, topic: &str) -> (r: Result<MessageId, Self::Error>)
        ensures
            old(self).subscription_answer(topic@, None, r),
            r is Ok ==> final(self).subscriptions() == old(self).subscriptions().push((topic@, None)),
    ;
}

/// The policy of a client that enqueues its messages.
pub struct Enqueueing;

/// The policy of a client that publishes its messages at once.
pub struct Publishing;

/// A blocking client `C` used with the publishing policy `P`.
pub struct Blocking<C, P> {
    client: C,
    _policy: P,
}

impl<C, P> Blocking<C, P> {
    /// The blocking client.
    pub closed spec fn client(&self) -> C {
        self.client
    }

    pub fn new(client: C, policy: P) -> (r: Self)
        ensures
            r.client() == client,
    {
        Blocking { client, _policy: policy }
    }
}

/// A client `W` with the helper `U` that runs its blocking calls.
pub struct AsyncClient<U, W>(W, U);

impl<U, W> AsyncClient<U, W> {
    /// The wrapped client.
    pub closed spec fn client(&self) -> W {
        self.0
    }

    /// The helper the client runs its blocking calls with.
    pub closed spec fn unblocker(&self) -> U {
        self.1
    }

    pub fn new(unblocker: U, client: W) -> (r: Self)
        ensures
            r.client() == client,
            r.unblocker() == unblocker,
    {
        AsyncClient(client, unblocker)
    }
}

impl<C> AsyncClient<(), Blocking<C, Publishing>> {
    /// The same blocking client, enqueueing its messages from now on.
    pub fn into_enqueueing(self) -> (r: AsyncClient<(), Blocking<C, Enqueueing>>)
        ensures
            r.client().client() == self.client().client(),
    {
        AsyncClient::new((), Blocking { client: self.0.client, _policy: Enqueueing })
    }
}

impl<C> AsyncClient<(), Blocking<C, Enqueueing>> {
    /// The same blocking client, publishing its messages at once from now on.
    pub fn into_publishing(self) -> (r: AsyncClient<(), Blocking<C, Publishing>>)
        ensures
            r.client().client() == self.client().client(),
    {
        AsyncClient::new((), Blocking { client: self.0.client, _policy: Publishing })
    }
}

impl<E: Enqueue> AsyncClient<(), Blocking<E, Enqueueing>> {
    /// Hands the message to the blocking client, which enqueues it; answers as it does.
    pub fn publish(&mut self, topic: &str, qos: QoS, retain: bool, payload: &[u8]) -> (r: Result<MessageId, E::Error>)
        ensures
            old(self).client().client().enqueue_answer((topic@, qos, retain, payload@), r),
            r is Ok ==> final(self).client().client().enqueued() == old(self).client().client().enqueued().push(
                (topic@, qos, retain, payload@),
            ),
    {
        self.0.client.enqueue(topic, qos, retain, payload)
    }
}

impl<P: Publish> AsyncClient<(), Blocking<P, Publishing>> {
    /// Hands the message to the blocking client, which publishes it; answers as it does.
    pub fn publish(&mut self, topic: &str, qos: QoS, retain: bool, payload: &[u8]) -> (r: Result<MessageId, P::Error>)
        ensures
            old(self).client().client().publish_answer((topic@, qos, retain, payload@), r),
            r is Ok ==> final(self).client().client().published() == old(self).client().client().published().push(
                (topic@, qos, retain, payload@),
            ),
    {
        self.0.client.publish(topic, qos, retain, payload)
    }
}

impl<C: Client, P> AsyncClient<(), Blocking<C, P>> {
    /// Subscribes the blocking client to `topic`; answers as it does.
    pub fn subscribe(&mut self, topic: &str, qos: QoS) -> (r: Result<MessageId, C::Error>)
        ensures
            old(self).client().client().subscription_answer(topic@, Some(qos), r),
            r is Ok ==> final(self).client().client().subscriptions() == old(self).client().client().subscriptions().push(
                (topic@, Some(qos)),
            ),
    {
        self.0.client.subscribe(topic, qos)
    }

    /// Unsubscribes the blocking client from `topic`; answers as it does.
    pub fn unsubscribe(&mut self, topic: &str) -> (r: Result<MessageId, C::Error>)
        ensures
            old(self).client().client().subscription_answer(topic@, None, r),
            r is Ok ==> final(self).client().client().subscriptions() == old(self).client().client().subscriptions().push(
                (topic@, None),
            ),
    {
        self.0.client.unsubscribe(topic)
    }
}

/// Switching a client to enqueueing and back to publishing keeps the same blocking client:
/// `into_publishing(into_enqueueing(a))` wraps what `a` wraps.
pub proof fn lemma_policy_round_trip<C>(
    a: AsyncClient<(), Blocking<C, Publishing>>,
    enqueueing: AsyncClient<(), Blocking<C, Enqueueing>>,
    back: AsyncClient<(), Blocking<C, Publishing>>,
)
    requires
        enqueueing.client().client() == a.client().client(),
        back.client().client() == enqueueing.client().client(),
    ensures
        back.client().client() == a.client().client(),
{
}

} // verus!
