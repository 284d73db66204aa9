use vstd::prelude::*;

verus! {

/// Whether a text or binary frame is followed by continuation frames.
pub type Fragmented = bool;

/// Whether a continuation frame is the last one of its message.
pub type Final = bool;

/// The kind of a WebSocket frame.
#[derive(Copy, Clone, PartialEq, Eq, Debug, Structural)]
pub enum FrameType {
    Text(Fragmented),
    Binary(Fragmented),
    Ping,
    Pong,
    Close,
    SocketClose,
    Continue(Final),
}

impl FrameType {
    /// A frame is fragmented when it belongs to a message split into several frames.
    pub open spec fn spec_is_fragmented(self) -> bool {
        match self {
            FrameType::Text(f) | FrameType::Binary(f) => f,
            FrameType::Continue(_) => true,
            _ => false,
        }
    }

    /// A frame is final when no further frame of its message follows it.
    pub open spec fn spec_is_final(self) -> bool {
        match self {
            FrameType::Text(f) | FrameType::Binary(f) => !f,
            FrameType::Continue(last) => last,
            _ => true,
        }
    }

    pub fn is_fragmented(&self) -> (r: bool)
        ensures
            r == self.spec_is_fragmented(),
    {
        match self {
            FrameType::Text(fragmented) | FrameType::Binary(fragmented) => *fragmented,
            FrameType::Continue(_) => true,
            _ => false,
        }
    }

    pub fn is_final(&self) -> (r: bool)
        ensures
            r == self.spec_is_final(),
            *self matches FrameType::Continue(last) ==> r == last,
            *self matches FrameType::Text(f) ==> r == !f,
            *self matches FrameType::Binary(f) ==> r == !f,
    {
        match self {
            FrameType::Text(fragmented) | FrameType::Binary(fragmented) => !*fragmented,
            FrameType::Continue(final_) => *final_,
            _ => true,
        }
    }
}

/// Text and binary frames are final exactly when they are not fragmented; a continuation
/// frame is always fragmented; control frames are final and never fragmented.
pub proof fn lemma_final_vs_fragmented(frame: FrameType)
    ensures
        !(frame is Continue) ==> (frame.spec_is_final() <==> !frame.spec_is_fragmented()),
        frame is Continue ==> frame.spec_is_fragmented(),
{
}

/// A continuation frame ends its message exactly when its flag says so, and is always part
/// of a fragmented message; a text or binary frame ends its message exactly when it is not
/// fragmented; a control frame always ends its message and is never fragmented.
pub proof fn lemma_frame_flags(flag: bool)
    ensures
        FrameType::Continue(flag).spec_is_final() == flag,
        FrameType::Continue(flag).spec_is_fragmented(),
        FrameType::Text(flag).spec_is_final() == !flag,
        FrameType::Text(flag).spec_is_fragmented() == flag,
        FrameType::Binary(flag).spec_is_final() == !flag,
        FrameType::Binary(flag).spec_is_fragmented() == flag,
        FrameType::Ping.spec_is_final() && !FrameType::Ping.spec_is_fragmented(),
        FrameType::Pong.spec_is_final() && !FrameType::Pong.spec_is_fragmented(),
        FrameType::Close.spec_is_final() && !FrameType::Close.spec_is_fragmented(),
        FrameType::SocketClose.spec_is_final() && !FrameType::SocketClose.spec_is_fragmented(),
{
}

/// Something that can fail, and the type of its failures.
pub trait ErrorType {
    type Error: core::fmt::Debug;
}

/// The receiving side of a WebSocket connection.
pub trait Receiver: ErrorType {
    /// Whether `answer` is what this connection may answer to a receive into a buffer of
    /// `capacity` bytes: the kind and the bytes of the next frame, or a failure.
    spec fn recv_answer(&self, capacity: nat, answer: Result<(FrameType, Seq<u8>), Self::Error>) -> bool;

    /// Receives the next frame into the front of `frame_data_buf`; says its kind and its
    /// length.
    fn recv(&mut self, frame_data_buf: &mut [u8]) -> (r: Result<(FrameType, usize), Self::Error>)
        ensures
            final(frame_data_buf)@.len() == old(frame_data_buf)@.len(),
            r matches Ok((_, len)) ==> len <= old(frame_data_buf)@.len(),
            r matches Ok((frame_type, len)) ==> old(self).recv_answer(
                old(frame_data_buf)@.len(),
                Ok((frame_type, final(frame_data_buf)@.take(len as int))),
            ),
            r matches Err(e) ==> old(self).recv_answer(old(frame_data_buf)@.len(), Err(e)),
    ;
}

/// The sending side of a WebSocket connection.
pub trait Sender: ErrorType {
    /// The frames sent so far, each with its kind.
    spec fn sent(&self) -> Seq<(FrameType, Seq<u8>)>;

    /// Whether `answer` is what this connection may answer to sending a frame of the kind
    /// `frame_type` carrying `frame_data`.
    spec fn send_answer(&self, frame_type: FrameType, frame_data: Seq<u8>, answer: Result<(), Self::Error>) -> bool;

    /// Sends a frame of the kind `frame_type` carrying `frame_data`.
    fn send(&mut self, frame_type: FrameType, frame_data: &[u8]) -> (r: Result<(), Self::Error>)
        ensures
            old(self).send_answer(frame_type, frame_data@, r),
            r is Ok ==> final(self).sent() == old(self).sent().push((frame_type, frame_data@)),
    ;
}

/// What a server knows of the session a connection belongs to.
pub trait SessionProvider {
    type Session: Clone + PartialEq + core::fmt::Debug;

    /// The session.
    spec fn spec_session(&self) -> Self::Session;

    /// Whether the session has just been opened.
    spec fn spec_is_new(&self) -> bool;

    /// Whether the session has been closed.
    spec fn spec_is_closed(&self) -> bool;

    /// The session.
    fn session(&self) -> (r: Self::Session)
        ensures
            r == self.spec_session(),
    ;

    /// Whether the session has just been opened.
    fn is_new(&self) -> (r: bool)
        ensures
            r == self.spec_is_new(),
    ;

    /// Whether the session has been closed.
    fn is_closed(&self) -> (r: bool)
        ensures
            r == self.spec_is_closed(),
    ;
}

/// Something that makes senders for a connection, to send from elsewhere.
pub trait SenderFactory: ErrorType {
    type Sender: Sender<Error = Self::Error>;

    /// Whether `r` is an answer this factory may give when asked for a sender.
    spec fn create_answer(&self, r: Result<Self::Sender, Self::Error>) -> bool;

    /// A new sender.
    fn create(&self) -> (r: Result<Self::Sender, Self::Error>)
        ensures
            self.create_answer(r),
    ;
}

/// Where WebSocket handlers are registered, each under the URI it serves.
pub trait Registry: Sized {
    type Error;

    /// Whether this registry takes every handler registered with it.
    spec fn never_fails(&self) -> bool;

    /// Registers `handler` for `uri`; whether that succeeds is the registry's to decide.
    fn set_handler<H>(&mut self, uri: &str, handler: H) -> (r: Result<&mut Self, Self::Error>)
        ensures
            old(self).never_fails() ==> r is Ok,
    ;

    /// Starts the registration of a handler for `uri`.
    fn ws<'a>(&'a mut self, uri: &'a str) -> (r: HandlerRegistrationBuilder<'a, Self>)
        ensures
            r.uri() == uri@,
            r.registry() == *old(self),
    {
        HandlerRegistrationBuilder { uri, registry: self }
    }
}

/// A registration of a handler under way: the URI is known, the handler still to come.
pub struct HandlerRegistrationBuilder<'r, R> {
    uri: &'r str,
    registry: &'r mut R,
}

impl<'r, R> HandlerRegistrationBuilder<'r, R> {
    /// The URI the handler is registered for.
    pub closed spec fn uri(&self) -> Seq<char> {
        self.uri@
    }

    /// The registry the handler goes to.
    pub closed spec fn registry(&self) -> R {
        *self.registry
    }
}

impl<'r, R: Registry> HandlerRegistrationBuilder<'r, R> {
    /// Registers `handler` for the URI.
    pub fn handler<H>(self, handler: H) -> (r: Result<&'r mut R, R::Error>)
        ensures
            self.registry().never_fails() ==> r is Ok,
    {
        self.registry.set_handler(self.uri, handler)
    }
}

} // verus!
