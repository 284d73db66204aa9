use std::time::Duration;

use embedded_svc::captive::{dns_is_query, process_dns_request, DnsError};
use embedded_svc::ghota::{join, Error};
use embedded_svc::ws::{ErrorType, FrameType, Receiver, Sender, SenderFactory, SessionProvider};
use embedded_svc::ws_server::{copy_frame, AcceptStep, Handover, Processor, ProcessorHub, RecvStep, SharedAcceptorState, SharedReceiverState};

fn query(flags: [u8; 2], qtype: u8) -> Vec<u8> {
    let mut q = vec![0x12, 0x34, flags[0], flags[1], 0, 1, 0, 0, 0, 0, 0, 0];
    q.extend_from_slice(&[1, b'a', 1, b'b', 0, 0, qtype, 0, 1]);
    q
}

#[test]
fn dns_answers_a_question_with_portal_ip() {
    let request = query([0x01, 0x00], 1);
    let response = process_dns_request(&request, &[192, 168, 71, 1], Duration::from_secs(60)).ok().unwrap();
    assert_eq!(response.len(), 40);
    assert_eq!(&response[0..2], &[0x12, 0x34]);
    assert_eq!(response[2] & 0x80, 0x80);
    assert_eq!(&response[6..8], &[0, 1]);
    assert_eq!(&response[response.len() - 4..], &[192, 168, 71, 1]);
    assert_eq!(&response[response.len() - 10..response.len() - 6], &[0, 0, 0, 60]);
}

#[test]
fn dns_leaves_other_questions_unanswered() {
    let request = query([0x01, 0x00], 28);
    let response = process_dns_request(&request, &[10, 0, 0, 1], Duration::from_secs(60)).ok().unwrap();
    assert_eq!(response.len(), 21);
    assert_eq!(&response[6..8], &[0, 0]);
}

#[test]
fn dns_answers_not_implemented_to_other_opcodes() {
    let request = query([0x11, 0x00], 1);
    let response = process_dns_request(&request, &[10, 0, 0, 1], Duration::from_secs(60)).ok().unwrap();
    assert_eq!(response.len(), 12);
    assert_eq!(&response[0..2], &[0x12, 0x34]);
    assert_eq!(response[2], 0x11);
    assert_eq!(response[3] & 0x0f, 4);
}

#[test]
fn dns_query_test_reads_the_opcode() {
    assert!(dns_is_query(&query([0x01, 0x00], 1)));
    assert!(!dns_is_query(&query([0x11, 0x00], 1)));
    assert!(!dns_is_query(&[0u8; 11]));
}

#[test]
fn dns_not_implemented_reply_is_a_bare_header() {
    let request = [0x12u8, 0x34, 0x11, 0x00, 0, 0, 0, 0, 0, 0, 0, 0];
    let response = process_dns_request(&request, &[10, 0, 0, 1], Duration::from_secs(60)).ok().unwrap();
    assert_eq!(response, vec![0x12, 0x34, 0x11, 4, 0, 0, 0, 0, 0, 0, 0, 0]);
    let flagged = [0xab, 0xcd, 0xaf, 0xff, 0, 1, 0, 2, 0, 3, 0, 4];
    let response = process_dns_request(&flagged, &[10, 0, 0, 1], Duration::from_secs(60)).ok().unwrap();
    assert_eq!(response, vec![0xab, 0xcd, 0x29, 4, 0, 0, 0, 0, 0, 0, 0, 0]);
}

#[test]
fn dns_refuses_short_request() {
    assert!(matches!(
        process_dns_request(&[1, 2, 3], &[10, 0, 0, 1], Duration::from_secs(1)),
        Err(DnsError::ShortBuf(_))
    ));
}

#[test]
fn dns_reports_broken_question() {
    let request = vec![0x12, 0x34, 0x01, 0x00, 0, 1, 0, 0, 0, 0, 0, 0, 5, b'a'];
    assert!(matches!(
        process_dns_request(&request, &[10, 0, 0, 1], Duration::from_secs(1)),
        Err(DnsError::ParseError(_))
    ));
}

#[test]
fn join_puts_one_slash_between() {
    assert_eq!(join::<(), 64>("https://a", "b").ok(), Some("https://a/b".to_string()));
    assert_eq!(join::<(), 64>("https://a/", "/b").ok(), Some("https://a/b".to_string()));
    assert_eq!(join::<(), 64>("https://a/", "b").ok(), Some("https://a/b".to_string()));
    assert_eq!(join::<(), 64>("https://a", "/b").ok(), Some("https://a/b".to_string()));
    assert_eq!(join::<(), 64>("https://a/", "/").ok(), Some("https://a/".to_string()));
    assert_eq!(join::<(), 64>("https://a", "").ok(), Some("https://a".to_string()));
    assert_eq!(join::<(), 64>("https://a", "/").ok(), Some("https://a/".to_string()));
}

#[test]
fn join_overflows_its_capacity() {
    assert!(matches!(join::<(), 10>("https://a", "bb"), Err(Error::UrlOverflow)));
    assert_eq!(join::<(), 12>("https://a", "bb").ok(), Some("https://a/bb".to_string()));
    assert!(matches!(join::<(), 9>("https://a", "b"), Err(Error::UrlOverflow)));
    assert_eq!(join::<(), 9>("https://a", "").ok(), Some("https://a".to_string()));
}

#[derive(Clone, Debug, PartialEq)]
struct Frame(FrameType, Vec<u8>);

struct MockWs {
    session: u32,
    new: bool,
    closed: bool,
    incoming: Option<(FrameType, Vec<u8>)>,
    sent: Vec<Frame>,
}

impl MockWs {
    fn new(session: u32) -> Self {
        MockWs { session, new: true, closed: false, incoming: None, sent: Vec::new() }
    }
}

impl ErrorType for MockWs {
    type Error = ();
}

impl Sender for MockWs {
    fn sent(&self) -> vstd::seq::Seq<(FrameType, vstd::seq::Seq<u8>)> {
        unreachable!("a specification, never called at run time")
    }

    fn send_answer(&self, _frame_type: FrameType, _frame_data: vstd::seq::Seq<u8>, _answer: Result<(), ()>) -> bool {
        unreachable!("a specification, never called at run time")
    }

    fn send(&mut self, frame_type: FrameType, frame_data: &[u8]) -> Result<(), ()> {
        self.sent.push(Frame(frame_type, frame_data.to_vec()));
        Ok(())
    }
}

impl Receiver for MockWs {
    fn recv_answer(&self, _capacity: vstd::prelude::nat, _answer: Result<(FrameType, vstd::seq::Seq<u8>), ()>) -> bool {
        unreachable!("a specification, never called at run time")
    }

    fn recv(&mut self, buf: &mut [u8]) -> Result<(FrameType, usize), ()> {
        let (ft, data) = self.incoming.take().ok_or(())?;
        buf[..data.len()].copy_from_slice(&data);
        Ok((ft, data.len()))
    }
}

impl SessionProvider for MockWs {
    type Session = u32;

    fn spec_session(&self) -> u32 {
        self.session
    }

    fn spec_is_new(&self) -> bool {
        self.new
    }

    fn spec_is_closed(&self) -> bool {
        self.closed
    }

    fn session(&self) -> u32 {
        self.session
    }

    fn is_new(&self) -> bool {
        self.new
    }

    fn is_closed(&self) -> bool {
        self.closed
    }
}

impl SenderFactory for MockWs {
    type Sender = MockSender;

    fn create_answer(&self, _r: Result<MockSender, ()>) -> bool {
        unreachable!("a specification, never called at run time")
    }

    fn create(&self) -> Result<MockSender, ()> {
        Ok(MockSender)
    }
}

struct MockSender;

impl ErrorType for MockSender {
    type Error = ();
}

impl Sender for MockSender {
    fn sent(&self) -> vstd::seq::Seq<(FrameType, vstd::seq::Seq<u8>)> {
        unreachable!("a specification, never called at run time")
    }

    fn send_answer(&self, _frame_type: FrameType, _frame_data: vstd::seq::Seq<u8>, _answer: Result<(), ()>) -> bool {
        unreachable!("a specification, never called at run time")
    }

    fn send(&mut self, _frame_type: FrameType, _frame_data: &[u8]) -> Result<(), ()> {
        Ok(())
    }
}

#[derive(Default)]
struct Hub {
    next: u32,
    accepted: Vec<u32>,
    received: Vec<(u32, FrameType, Vec<u8>)>,
    closed: Vec<u32>,
    stopped: bool,
}

impl ProcessorHub<u32, MockSender> for Hub {
    fn handovers(&self) -> vstd::seq::Seq<Handover<u32, MockSender>> {
        unreachable!("a specification, never called at run time")
    }

    fn accepting(&self) -> bool {
        !self.stopped
    }

    fn new_receiver(&mut self) -> u32 {
        self.next += 1;
        self.next
    }

    fn share(&self, receiver: &u32) -> u32 {
        *receiver
    }

    fn accept(&mut self, receiver: u32, _sender: MockSender) {
        self.accepted.push(receiver);
    }

    fn receive(&mut self, receiver: &u32, frame_type: FrameType, data: &[u8]) {
        self.received.push((*receiver, frame_type, data.to_vec()));
    }

    fn receive_close(&mut self, receiver: &u32) {
        self.closed.push(*receiver);
    }

    fn accept_close(&mut self) {
        self.stopped = true;
    }
}

#[test]
fn ws_processor_accepts_receives_and_closes() {
    let mut processor: Processor<4, 16, u32, u32> = Processor::new();
    let mut hub = Hub::default();
    let mut ws = MockWs::new(7);
    processor.process(&mut hub, &mut ws).unwrap();
    assert_eq!(hub.accepted, vec![1]);
    ws.new = false;
    ws.incoming = Some((FrameType::Text(false), b"hi".to_vec()));
    processor.process(&mut hub, &mut ws).unwrap();
    assert_eq!(hub.received, vec![(1, FrameType::Text(false), b"hi".to_vec())]);
    ws.closed = true;
    processor.process(&mut hub, &mut ws).unwrap();
    assert_eq!(hub.closed, vec![1]);
    ws.closed = false;
    ws.incoming = Some((FrameType::Binary(false), b"x".to_vec()));
    processor.process(&mut hub, &mut ws).unwrap();
    assert_eq!(hub.received.len(), 1);
}

#[test]
fn ws_processor_refuses_beyond_connection_limit() {
    let mut processor: Processor<1, 16, u32, u32> = Processor::new();
    let mut hub = Hub::default();
    let mut first = MockWs::new(1);
    processor.process(&mut hub, &mut first).unwrap();
    let mut second = MockWs::new(2);
    processor.process(&mut hub, &mut second).unwrap();
    assert_eq!(hub.accepted, vec![1]);
    assert_eq!(second.sent, vec![Frame(FrameType::Close, vec![])]);
}

#[test]
fn ws_receiver_state_hand_over() {
    let mut shared = SharedReceiverState::new();
    let waker = std::task::Waker::noop();
    assert!(matches!(shared.poll_recv(8, waker), RecvStep::Pending));
    shared.announce(FrameType::Text(false), 4);
    assert!(matches!(shared.poll_recv(2, waker), RecvStep::Ready((FrameType::Text(false), 4))));
    assert!(matches!(shared.poll_recv(8, waker), RecvStep::Copy((FrameType::Text(false), 4))));
    assert!(shared.wants_data());
    shared.mark_copied();
    assert!(shared.is_copied());
    shared.finish_copy();
    assert!(shared.is_idle());
    shared.close();
    assert!(matches!(shared.poll_recv(8, waker), RecvStep::Ready((FrameType::Close, 0))));
}

#[test]
fn ws_acceptor_state_hand_over() {
    let mut shared: SharedAcceptorState<u8, u8> = SharedAcceptorState::new();
    let waker = std::task::Waker::noop();
    assert!(matches!(shared.poll_accept(waker), AcceptStep::Pending));
    shared.offer(1, 2);
    assert!(!shared.is_taken());
    assert!(matches!(shared.poll_accept(waker), AcceptStep::Ready(Some((1, 2)))));
    assert!(shared.is_taken());
    shared.close();
    assert!(matches!(shared.poll_accept(waker), AcceptStep::Ready(None)));
    assert!(matches!(shared.poll_accept(waker), AcceptStep::Ready(None)));
}

#[test]
fn frame_types_fragmentation() {
    assert!(FrameType::Text(true).is_fragmented());
    assert!(!FrameType::Text(true).is_final());
    assert!(FrameType::Continue(true).is_final());
    assert!(FrameType::Continue(false).is_fragmented());
    assert!(FrameType::Ping.is_final());
    assert!(!FrameType::Close.is_fragmented());
}

#[test]
fn ws_processor_accept_close_stops_the_acceptor() {
    let mut processor: Processor<4, 16, u32, u32> = Processor::new();
    let mut hub = Hub::default();
    assert!(hub.accepting());
    processor.process_accept_close(&mut hub);
    assert!(hub.stopped);
    assert!(!hub.accepting());
}

#[test]
fn copy_frame_fills_the_front_of_the_buffer() {
    let mut buf = [9u8; 5];
    copy_frame(&[1, 2, 3, 4], 3, &mut buf);
    assert_eq!(buf, [1, 2, 3, 9, 9]);
}

#[test]
fn ws_processor_refuses_beyond_frame_buffer_count() {
    let mut processor: Processor<4, 1, u32, u32> = Processor::new();
    let mut hub = Hub::default();
    let mut first = MockWs::new(1);
    processor.process(&mut hub, &mut first).unwrap();
    let mut second = MockWs::new(2);
    processor.process(&mut hub, &mut second).unwrap();
    assert_eq!(hub.accepted, vec![1]);
    assert_eq!(second.sent, vec![Frame(FrameType::Close, vec![])]);
}
