use embedded_svc::asyncify_mqtt::{AsyncClient, Blocking, Client, Enqueue, Enqueueing, MessageId, MessageRecord, Publish, Publishing, QoS};

#[derive(Default)]
struct Broker {
    log: Vec<(String, QoS, bool, Vec<u8>)>,
    topics: Vec<(String, Option<QoS>)>,
    next: MessageId,
}

impl Publish for Broker {
    type Error = ();

    fn published(&self) -> vstd::seq::Seq<MessageRecord> {
        unreachable!("a specification, never called at run time")
    }

    fn publish_answer(&self, _m: MessageRecord, _r: Result<MessageId, ()>) -> bool {
        unreachable!("a specification, never called at run time")
    }

    fn publish(&mut self, topic: &str, qos: QoS, retain: bool, payload: &[u8]) -> Result<MessageId, ()> {
        self.log.push((topic.to_string(), qos, retain, payload.to_vec()));
        self.next += 1;
        Ok(self.next)
    }
}

impl Enqueue for Broker {
    type Error = ();

    fn enqueued(&self) -> vstd::seq::Seq<MessageRecord> {
        unreachable!("a specification, never called at run time")
    }

    fn enqueue_answer(&self, _m: MessageRecord, _r: Result<MessageId, ()>) -> bool {
        unreachable!("a specification, never called at run time")
    }

    fn enqueue(&mut self, topic: &str, qos: QoS, retain: bool, payload: &[u8]) -> Result<MessageId, ()> {
        if payload.is_empty() {
            return Err(());
        }
        self.log.push((topic.to_string(), qos, retain, payload.to_vec()));
        Ok(100)
    }
}

impl Client for Broker {
    type Error = ();

    fn subscriptions(&self) -> vstd::seq::Seq<(vstd::seq::Seq<char>, Option<QoS>)> {
        unreachable!("a specification, never called at run time")
    }

    fn subscription_answer(&self, _topic: vstd::seq::Seq<char>, _qos: Option<QoS>, _r: Result<MessageId, ()>) -> bool {
        unreachable!("a specification, never called at run time")
    }

    fn subscribe(&mut self, topic: &str, qos: QoS) -> Result<MessageId, ()> {
        self.topics.push((topic.to_string(), Some(qos)));
        Ok(7)
    }

    fn unsubscribe(&mut self, topic: &str) -> Result<MessageId, ()> {
        self.topics.push((topic.to_string(), None));
        Ok(8)
    }
}

#[test]
fn async_client_publishes_through_the_blocking_client() {
    let mut client = AsyncClient::new((), Blocking::new(Broker::default(), Publishing));
    assert_eq!(client.publish("a/b", QoS::AtLeastOnce, true, b"hi"), Ok(1));
    assert_eq!(client.subscribe("a/#", QoS::AtMostOnce), Ok(7));
    assert_eq!(client.unsubscribe("a/#"), Ok(8));
    let mut enqueueing = client.into_enqueueing();
    assert_eq!(enqueueing.publish("c", QoS::ExactlyOnce, false, b"x"), Ok(100));
    assert_eq!(enqueueing.publish("c", QoS::ExactlyOnce, false, b""), Err(()));
}
