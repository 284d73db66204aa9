use vstd::prelude::*;

use core::task::Waker;

use vstd::std_specs::cmp::PartialEqSpec;

use crate::seqs::{first_index, lemma_first_index, lemma_first_index_at};
use crate::waker::{waker_clone, waker_wake};
use crate::ws::{FrameType, Receiver, Sender, SenderFactory, SessionProvider};

verus! {

/// Where the hand-over of one frame from the server to a connection's receiver stands:
/// nothing pending, a frame announced (its kind and length), the receiver's buffer ready
/// for the frame's data, the data copied, or the connection closed.
#[derive(Clone, Copy, Debug)]
pub enum ReceiverData {
    Idle,
    Metadata((FrameType, usize)),
    Data,
    DataCopied,
    Closed,
}

/// What the server and a connection's receiver share: the hand-over and the receiving task.
pub struct SharedReceiverState {
    waker: Option<Waker>,
    data: ReceiverData,
}

/// Copies the first `size` bytes of the frame data `data` into the front of the receiving
/// task's buffer `buf`, leaving the rest of `buf` as it was.
pub fn copy_frame(data: &[u8], size: usize, buf: &mut [u8])
    requires
        size <= data@.len(),
        size <= old(buf)@.len(),
    ensures
        final(buf)@ == data@.take(size as int) + old(buf)@.skip(size as int),
{
    let mut i: usize = 0;
    while i < size
        invariant
            i <= size,
            size <= data@.len(),
            size <= old(buf)@.len(),
            buf@.len() == old(buf)@.len(),
            buf@ == data@.take(i as int) + old(buf)@.skip(i as int),
        decreases size - i,
    {
        buf[i] = data[i];
        proof {
            assert(buf@ =~= data@.take((i + 1) as int) + old(buf)@.skip((i + 1) as int));
        }
        i = i + 1;
    }
}

/// What one poll of a receiving task did: found a frame whose data is to be copied into its
/// buffer (wait for the copy, then `finish_copy`), found a frame (or the end of the
/// connection) to return at once, or found nothing and left its waker.
pub enum RecvStep {
    Copy((FrameType, usize)),
    Ready((FrameType, usize)),
    Pending,
}

impl SharedReceiverState {
    /// The state of the hand-over.
    pub closed spec fn data(&self) -> ReceiverData {
        self.data
    }

    /// Whether a receiving task waits.
    pub closed spec fn has_waiter(&self) -> bool {
        self.waker is Some
    }

    /// Nothing pending, nobody waiting.
    pub fn new() -> (r: Self)
        ensures
            r.data() == ReceiverData::Idle,
            !r.has_waiter(),
    {
        SharedReceiverState { waker: None, data: ReceiverData::Idle }
    }

    fn wake_waiter(&mut self)
        ensures
            !final(self).has_waiter(),
            final(self).data() == old(self).data(),
    {
        let mut taken: Option<Waker> = None;
        core::mem::swap(&mut taken, &mut self.waker);
        if let Some(w) = taken {
            waker_wake(w);
        }
    }

    /// The server announces a frame of the kind `frame_type` and the length `len`, and wakes
    /// the receiving task.
    pub fn announce(&mut self, frame_type: FrameType, len: usize)
        ensures
            final(self).data() == ReceiverData::Metadata((frame_type, len)),
            !final(self).has_waiter(),
    {
        self.data = ReceiverData::Metadata((frame_type, len));
        self.wake_waiter();
    }

    /// Whether the receiver's buffer waits for the data.
    pub fn wants_data(&self) -> (r: bool)
        ensures
            r == (self.data() is Data),
    {
        match self.data {
            ReceiverData::Data => true,
            _ => false,
        }
    }

    /// The server copied the data into the receiver's buffer.
    pub fn mark_copied(&mut self)
        requires
            old(self).data() is Data,
        ensures
            final(self).data() == ReceiverData::DataCopied,
            final(self).has_waiter() == old(self).has_waiter(),
    {
        self.data = ReceiverData::DataCopied;
    }

    /// Whether the data has been copied.
    pub fn is_copied(&self) -> (r: bool)
        ensures
            r == (self.data() is DataCopied),
    {
        match self.data {
            ReceiverData::DataCopied => true,
            _ => false,
        }
    }

    /// The receiver is done with the frame.
    pub fn finish_copy(&mut self)
        ensures
            final(self).data() == ReceiverData::Idle,
            final(self).has_waiter() == old(self).has_waiter(),
    {
        self.data = ReceiverData::Idle;
    }

    /// Whether the hand-over is over.
    pub fn is_idle(&self) -> (r: bool)
        ensures
            r == (self.data() is Idle),
    {
        match self.data {
            ReceiverData::Idle => true,
            _ => false,
        }
    }

    /// The connection closed: the receiving task is woken to see it.
    pub fn close(&mut self)
        ensures
            final(self).data() == ReceiverData::Closed,
            !final(self).has_waiter(),
    {
        self.data = ReceiverData::Closed;
        self.wake_waiter();
    }

    /// One poll of the receiving task, with a buffer of `buf_len` bytes. A frame announced
    /// that fits is to be copied into the buffer; one that does not fit is returned with
    /// its length, and no data; a closed connection gives a `Close` frame of no data;
    /// otherwise the task's `waker` is kept.
    pub fn poll_recv(&mut self, buf_len: usize, waker: &Waker) -> (r: RecvStep)
        ensures
            match old(self).data() {
                ReceiverData::Metadata((ft, size)) => if size <= buf_len {
                    r == RecvStep::Copy((ft, size)) && final(self).data() == ReceiverData::Data
                } else {
                    r == RecvStep::Ready((ft, size)) && final(self).data() == old(self).data()
                },
                ReceiverData::Closed => r == RecvStep::Ready((FrameType::Close, 0usize))
                    && final(self).data() == old(self).data(),
                _ => r is Pending && final(self).has_waiter() && final(self).data() == old(
                    self,
                ).data(),
            },
    {
        match self.data {
            ReceiverData::Metadata((frame_type, size)) => {
                if size <= buf_len {
                    self.data = ReceiverData::Data;
                    RecvStep::Copy((frame_type, size))
                } else {
                    RecvStep::Ready((frame_type, size))
                }
            },
            ReceiverData::Closed => RecvStep::Ready((FrameType::Close, 0)),
            _ => {
                self.waker = Some(waker_clone(waker));
                RecvStep::Pending
            },
        }
    }
}

/// A connection the server keeps: its session and the receiver state it shares.
pub struct ConnectionState<R, S> {
    session: S,
    receiver_state: R,
}

impl<R, S> ConnectionState<R, S> {
    /// The session of the connection.
    pub closed spec fn session(&self) -> S {
        self.session
    }

    /// The shared receiver state of the connection.
    pub closed spec fn receiver_state(&self) -> R {
        self.receiver_state
    }
}

/// What the server and the acceptor share: a new connection waiting to be accepted (its
/// receiver state and sender), the end of all connections (`Some(None)`), or nothing.
pub struct SharedAcceptorState<R, X> {
    waker: Option<Waker>,
    data: Option<Option<(R, X)>>,
}

/// What one poll of the accepting task found: a connection, the end of all connections,
/// or nothing yet.
pub enum AcceptStep<T> {
    Ready(Option<T>),
    Pending,
}

impl<R, X> SharedAcceptorState<R, X> {
    /// The state of the hand-over.
    pub closed spec fn data(&self) -> Option<Option<(R, X)>> {
        self.data
    }

    /// Whether an accepting task waits.
    pub closed spec fn has_waiter(&self) -> bool {
        self.waker is Some
    }

    /// Nothing offered, nobody waiting.
    pub fn new() -> (r: Self)
        ensures
            r.data() is None,
            !r.has_waiter(),
    {
        SharedAcceptorState { waker: None, data: None }
    }

    fn wake_waiter(&mut self)
        ensures
            !final(self).has_waiter(),
            final(self).data() == old(self).data(),
    {
        let mut taken: Option<Waker> = None;
        core::mem::swap(&mut taken, &mut self.waker);
        if let Some(w) = taken {
            waker_wake(w);
        }
    }

    /// The server offers a new connection and wakes the accepting task.
    pub fn offer(&mut self, receiver: R, sender: X)
        ensures
            final(self).data() == Some(Some((receiver, sender))),
            !final(self).has_waiter(),
    {
        self.data = Some(Some((receiver, sender)));
        self.wake_waiter();
    }

    /// Whether the connection offered has been taken.
    pub fn is_taken(&self) -> (r: bool)
        ensures
            r == self.data() is None,
    {
        self.data.is_none()
    }

    /// The server stops: the accepting task is woken to see that no connection comes.
    pub fn close(&mut self)
        ensures
            final(self).data() == Some(None::<(R, X)>),
            !final(self).has_waiter(),
    {
        self.data = Some(None);
        self.wake_waiter();
    }

    /// One poll of the accepting task: takes the connection offered; reports the end of
    /// all connections, and keeps reporting it; else keeps the task's `waker`.
    pub fn poll_accept(&mut self, waker: &Waker) -> (r: AcceptStep<(R, X)>)
        ensures
            match old(self).data() {
                Some(Some(c)) => r == AcceptStep::Ready(Some(c)) && final(self).data() is None,
                Some(None) => r == AcceptStep::<(R, X)>::Ready(None) && final(self).data()
                    == old(self).data(),
                None => r is Pending && final(self).has_waiter() && final(self).data() is None,
            },
    {
        let mut taken: Option<Option<(R, X)>> = None;
        core::mem::swap(&mut taken, &mut self.data);
        match taken {
            Some(Some(c)) => AcceptStep::Ready(Some(c)),
            Some(None) => {
                self.data = Some(None);
                AcceptStep::Ready(None)
            },
            None => {
                self.waker = Some(waker_clone(waker));
                AcceptStep::Pending
            },
        }
    }
}

/// One hand-over from the server to its surroundings.
pub enum Handover<R, X> {
    /// A new connection, its receiver state and its sender, offered to the acceptor.
    Offered(R, X),
    /// A frame, its kind and its bytes, handed to a connection's receiver.
    Frame(R, FrameType, Seq<u8>),
    /// A connection's receiver told that the connection closed.
    Closed(R),
    /// The acceptor told that no more connections come.
    NoMore,
}

/// A log of hand-overs, oldest first.
pub type HandoverLog<R, X> = Seq<Handover<R, X>>;

/// What a server needs from its surroundings to pass connections and frames on: the
/// shared states and the waits on them, which are the caller's.
pub trait ProcessorHub<R, X> {
    /// Whether the acceptor still takes new connections.
    spec fn accepting(&self) -> bool;

    /// Everything handed over so far, in order.
    spec fn handovers(&self) -> HandoverLog<R, X>;

    /// A new receiver state, to share with the connection's receiver.
    fn new_receiver(&mut self) -> (r: R)
        ensures
            final(self).handovers() == old(self).handovers(),
    ;

    /// Another handle on the same receiver state.
    fn share(&self, receiver: &R) -> (r: R)
        ensures
            r == *receiver,
    ;

    /// Offers a new connection to the acceptor and returns once it has been taken.
    fn accept(&mut self, receiver: R, sender: X)
        ensures
            final(self).handovers() == old(self).handovers().push(Handover::Offered(receiver, sender)),
    ;

    /// Hands a frame to the connection's receiver and returns once it has been taken.
    fn receive(&mut self, receiver: &R, frame_type: FrameType, data: &[u8])
        ensures
            final(self).handovers() == old(self).handovers().push(Handover::Frame(*receiver, frame_type, data@)),
    ;

    /// Tells the connection's receiver that the connection closed.
    fn receive_close(&mut self, receiver: &R)
        ensures
            final(self).handovers() == old(self).handovers().push(Handover::Closed(*receiver)),
    ;

    /// Tells the acceptor that no more connections come.
    fn accept_close(&mut self)
        ensures
            !final(self).accepting(),
            final(self).handovers() == old(self).handovers().push(Handover::NoMore),
    ;
}

/// Whether a session is `session`, by the session type's `==`.
pub open spec fn same_session<R, S: PartialEq>(session: S) -> spec_fn(ConnectionState<R, S>) -> bool {
    |c: ConnectionState<R, S>| c.session().eq_spec(&session)
}

/// The connections after the one at `i` is replaced by the last one.
pub open spec fn swap_removed<A>(s: Seq<A>, i: int) -> Seq<A> {
    s.update(i, s.last()).drop_last()
}

/// A WebSocket server's bookkeeping: the connections it serves (at most `N`) and the
/// buffer of `F` bytes it receives frames into.
pub struct Processor<const N: usize, const F: usize, R, S> {
    connections: Vec<ConnectionState<R, S>>,
    frame_data_buf: Vec<u8>,
}

impl<const N: usize, const F: usize, R, S: PartialEq> Processor<N, F, R, S> {
    /// The connections served, in the order the bookkeeping keeps them.
    pub closed spec fn connections(&self) -> Seq<ConnectionState<R, S>> {
        self.connections@
    }

    /// The buffer holds `F` bytes and there are at most `N` connections.
    pub closed spec fn wf(&self) -> bool {
        &&& self.frame_data_buf@.len() == F
        &&& self.connections@.len() <= N
    }

    /// No connections yet.
    pub fn new() -> (r: Self)
        ensures
            r.wf(),
            r.connections() == Seq::<ConnectionState<R, S>>::empty(),
    {
        let mut frame_data_buf: Vec<u8> = Vec::new();
        let mut i: usize = 0;
        while i < F
            invariant
                i <= F,
                frame_data_buf@.len() == i,
            decreases F - i,
        {
            frame_data_buf.push(0);
            i = i + 1;
        }
        Processor { connections: Vec::new(), frame_data_buf }
    }

    /// Whether a new connection can be served: fewer than `N` are, and fewer than `F`.
    pub open spec fn has_room(&self) -> bool {
        self.connections().len() < N && self.connections().len() < F
    }

    /// Where the connection of `session` stands, if it is served.
    fn find(&self, session: &S) -> (r: Option<usize>)
        ensures
            S::obeys_eq_spec() ==> r == match first_index(
                self.connections(),
                same_session::<R, S>(*session),
            ) {
                Some(i) => Some(i as usize),
                None => None::<usize>,
            },
            r matches Some(i) ==> i < self.connections().len(),
    {
        let n = self.connections.len();
        let mut i: usize = 0;
        while i < n
            invariant
                n == self.connections@.len(),
                i <= n,
                S::obeys_eq_spec() ==> forall|j: int|
                    0 <= j < i ==> !(#[trigger] same_session::<R, S>(*session)(self.connections@[j])),
            decreases n - i,
        {
            if self.connections[i].session.eq(session) {
                proof {
                    if S::obeys_eq_spec() {
                        lemma_first_index_at(self.connections(), same_session::<R, S>(*session), i as int);
                    }
                }
                return Some(i);
            }
            i = i + 1;
        }
        proof {
            if S::obeys_eq_spec() {
                lemma_first_index_at(self.connections(), same_session::<R, S>(*session), n as int);
            }
        }
        None
    }

    /// Serves a new connection while there is room (fewer than `N` served and fewer than `F`): registers it, hands its
    /// receiver state and a sender to the acceptor, and says `true`; else says `false`.
    /// Fails, registering nothing, when the connection cannot make a sender.
    fn process_accept<W, H>(&mut self, hub: &mut H, session: S, connection: &W) -> (r: Result<bool, W::Error>)
        where
            W: SenderFactory,
            H: ProcessorHub<R, W::Sender>,
        requires
            old(self).wf(),
        ensures
            final(self).wf(),
            match r {
                Ok(true) => old(self).has_room() && final(self).connections().len()
                    == old(self).connections().len() + 1 && final(self).connections().drop_last()
                    == old(self).connections() && final(self).connections().last().session()
                    == session,
                Ok(false) => !old(self).has_room() && final(self).connections()
                    == old(self).connections(),
                Err(_) => old(self).has_room() && final(self).connections() == old(
                    self,
                ).connections(),
            },
            r matches Ok(true) ==> final(hub).handovers().drop_last() == old(hub).handovers()
                && final(hub).handovers().len() == old(hub).handovers().len() + 1
                && exists|sender: W::Sender|
                #![trigger connection.create_answer(Ok(sender))]
                connection.create_answer(Ok(sender)) && final(hub).handovers().last() == Handover::Offered(
                    final(self).connections().last().receiver_state(),
                    sender,
                ),
            !(r matches Ok(true)) ==> final(hub).handovers() == old(hub).handovers(),
    {
        if self.connections.len() < N && self.connections.len() < F {
            let sender = match connection.create() {
                Ok(s) => s,
                Err(e) => {
                    return Err(e);
                },
            };
            let receiver_state = hub.new_receiver();
            let shared = hub.share(&receiver_state);
            self.connections.push(ConnectionState { session, receiver_state: shared });
            proof {
                assert(self.connections@.drop_last() =~= old(self).connections@);
            }
            hub.accept(receiver_state, sender);
            assert(connection.create_answer(Ok(sender)));
            Ok(true)
        } else {
            Ok(false)
        }
    }

    /// Handles one event of `connection`: a new connection is served, or refused with a
    /// `Close` frame when there is no room; a closed connection is
    /// forgotten and its receiver told; otherwise the connection's next frame is received
    /// and handed to its receiver, when the connection is served.
    pub fn process<W, H>(&mut self, hub: &mut H, connection: &mut W) -> (r: Result<(), W::Error>)
        where
            W: Sender + Receiver + SessionProvider<Session = S> + SenderFactory,
            H: ProcessorHub<R, W::Sender>,
        requires
            old(self).wf(),
        ensures
            final(self).wf(),
            old(connection).spec_is_new() ==> (if old(self).has_room() {
                r is Ok ==> final(self).connections().drop_last() == old(self).connections()
                    && final(self).connections().last().session() == old(connection).spec_session()
                    && final(self).connections().len() == old(self).connections().len() + 1
            } else {
                final(self).connections() == old(self).connections()
            }),
            !old(connection).spec_is_new() && old(connection).spec_is_closed() ==> r is Ok && (
            S::obeys_eq_spec() ==> final(self).connections() == match first_index(
                old(self).connections(),
                same_session::<R, S>(old(connection).spec_session()),
            ) {
                Some(i) => swap_removed(old(self).connections(), i),
                None => old(self).connections(),
            }),
            !old(connection).spec_is_new() && !old(connection).spec_is_closed()
                ==> final(self).connections() == old(self).connections(),
            old(connection).spec_is_new() && old(self).has_room() ==> *final(connection)
                == *old(connection),
            !old(connection).spec_is_new() && old(connection).spec_is_closed() ==> *final(connection)
                == *old(connection),
            old(connection).spec_is_new() && old(self).has_room() ==> (if r is Ok {
                final(hub).handovers().drop_last() == old(hub).handovers() && final(hub).handovers().len()
                    == old(hub).handovers().len() + 1 && exists|sender: W::Sender|
                    #![trigger old(connection).create_answer(Ok(sender))]
                    old(connection).create_answer(Ok(sender)) && final(hub).handovers().last()
                        == Handover::Offered(final(self).connections().last().receiver_state(), sender)
            } else {
                final(hub).handovers() == old(hub).handovers()
            }),
            old(connection).spec_is_new() && !old(self).has_room() ==> {
                &&& final(hub).handovers() == old(hub).handovers()
                &&& old(connection).send_answer(FrameType::Close, Seq::empty(), r)
                &&& r is Ok ==> final(connection).sent() == old(connection).sent().push(
                    (FrameType::Close, Seq::empty()),
                )
            },
            !old(connection).spec_is_new() && old(connection).spec_is_closed() && S::obeys_eq_spec()
                ==> final(hub).handovers() == match first_index(
                old(self).connections(),
                same_session::<R, S>(old(connection).spec_session()),
            ) {
                Some(i) => old(hub).handovers().push(
                    Handover::Closed(old(self).connections()[i].receiver_state()),
                ),
                None => old(hub).handovers(),
            },
            !old(connection).spec_is_new() && !old(connection).spec_is_closed() ==> exists|
                answer: Result<(FrameType, Seq<u8>), W::Error>,
            |
                #![trigger old(connection).recv_answer(F as nat, answer)]
                {
                    &&& old(connection).recv_answer(F as nat, answer)
                    &&& match answer {
                        Err(e) => r == Err::<(), W::Error>(e) && final(hub).handovers() == old(hub).handovers(),
                        Ok((frame_type, data)) => r is Ok && (S::obeys_eq_spec() ==> final(hub).handovers() == match first_index(
                            old(self).connections(),
                            same_session::<R, S>(old(connection).spec_session()),
                        ) {
                            Some(i) => old(hub).handovers().push(
                                Handover::Frame(old(self).connections()[i].receiver_state(), frame_type, data),
                            ),
                            None => old(hub).handovers(),
                        }),
                    }
                },
    {
        if connection.is_new() {
            let session = connection.session();
            match self.process_accept(hub, session, connection) {
                Ok(true) => Ok(()),
                Ok(false) => {
                    let empty: [u8; 0] = [];
                    assert(empty@ =~= Seq::<u8>::empty());
                    connection.send(FrameType::Close, &empty)
                },
                Err(e) => Err(e),
            }
        } else if connection.is_closed() {
            let session = connection.session();
            proof {
                lemma_first_index(self.connections(), same_session::<R, S>(session));
            }
            match self.find(&session) {
                Some(index) => {
                    let conn = self.connections.swap_remove(index);
                    hub.receive_close(&conn.receiver_state);
                },
                None => {},
            }
            Ok(())
        } else {
            let session = connection.session();
            let (frame_type, len) = match connection.recv(self.frame_data_buf.as_mut_slice()) {
                Ok(x) => x,
                Err(e) => {
                    assert(old(connection).recv_answer(F as nat, Err(e)));
                    return Err(e);
                },
            };
            let ghost data = self.frame_data_buf@.take(len as int);
            assert(old(connection).recv_answer(F as nat, Ok((frame_type, data))));
            proof {
                lemma_first_index(self.connections(), same_session::<R, S>(session));
            }
            match self.find(&session) {
                Some(index) => {
                    let bytes = &self.frame_data_buf.as_slice()[0..len];
                    assert(bytes@ =~= data);
                    hub.receive(&self.connections[index].receiver_state, frame_type, bytes);
                },
                None => {},
            }
            Ok(())
        }
    }

    /// Tells the acceptor that the server stops.
    pub fn process_accept_close<X, H: ProcessorHub<R, X>>(&mut self, hub: &mut H)
        ensures
            *final(self) == *old(self),
            !final(hub).accepting(),
    {
        hub.accept_close();
    }
}

/// A connection accepted for a session no served connection has, then closed, leaves the
/// server serving exactly the connections it served before.
pub proof fn lemma_accept_then_close<R, S: PartialEq>(before: Seq<ConnectionState<R, S>>, added: ConnectionState<R, S>)
    requires
        S::obeys_eq_spec(),
        added.session().eq_spec(&added.session()),
        forall|i: int| 0 <= i < before.len() ==> !(#[trigger] before[i]).session().eq_spec(&added.session()),
    ensures
        first_index(before.push(added), same_session::<R, S>(added.session())) == Some(before.len() as int),
        swap_removed(before.push(added), before.len() as int) == before,
{
    let s = before.push(added);
    let p = same_session::<R, S>(added.session());
    assert forall|j: int| 0 <= j < before.len() implies !p(#[trigger] s[j]) by {
        assert(s[j] == before[j]);
    }
    lemma_first_index_at(s, p, before.len() as int);
    assert(swap_removed(s, before.len() as int) =~= before);
}

} // verus!
