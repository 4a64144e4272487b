//! Provides a WebSocket session that encapsulates an underlying binary session
pub mod coding;
pub mod frame;
pub mod handshake;
pub mod message;

use std::borrow::Cow;
use std::collections::VecDeque;

use vstd::prelude::*;
use vstd::slice::slice_to_vec;

use crate::error::{Error, ErrorKind};
use crate::frame::FrameDuplex;
use crate::http::client::{connect_stream, ConnectTarget};
use crate::http::message::{Request, Response};
use crate::websocket::handshake::{connect_scheme, start_handshake, verify_response};
use crate::{
    DriveOutcome, Flush, Publish, PublishOutcome, Receive, ReceiveOutcome, Session, SessionStatus,
};

pub use frame::{WebSocketFrameDeserializer, WebSocketFrameSerializer};
pub use message::{CloseFrame, Frame, Message, Payload};

verus! {

/// A handshake that is not complete. `T` is the stream, and `M` what writes the request to it and reads the response
/// from it.
pub enum PendingHandshake<T, M> {
    /// The request has not been written.
    StartClientHandshake(T, Request<()>),
    /// The request is being written or the response read, with the answer that the server is to give.
    MidClientHandshake(String, M),
}

/// What is to be done next to complete a handshake.
pub enum HandshakeStep<T, M> {
    /// Start writing the request to the stream, and go on with [`WebSocketSession::handshake_started`].
    Write { stream: T, request: Vec<u8>, accept_key: String },
    /// Go on writing or reading, and then with [`WebSocketSession::handshake_waiting`], or with
    /// [`WebSocketSession::handshake_finished`] when the response was read.
    Round { machine: M, accept_key: String },
}

/// Find where to connect to for a WebSocket request.
pub fn connect_target(request: &Request<()>) -> (r: Result<ConnectTarget, Error>)
    ensures
        match (handshake::scheme_of(request@.uri.scheme), request@.uri.host) {
            (None, _) => crate::error::fails(
                r,
                ErrorKind::InvalidData,
                "invalid scheme Some(\""@ + request@.uri.scheme->0 + "\")"@,
            ),
            (Some(_), None) => crate::error::fails(r, ErrorKind::InvalidData, "missing host"@),
            (Some(scheme), Some(host)) => r matches Ok(target) && target.leads_to(
                host,
                match request@.uri.port {
                    Some(port) => port,
                    None => scheme.port(),
                },
                scheme,
            ),
        },
        // a plain connection is to port 80, and one over TLS to port 443, unless the URI names another
        request@.uri.scheme == Some("ws"@) && request@.uri.host is Some ==> {
            &&& r matches Ok(target)
            &&& target.domain is None
            &&& request@.uri.port is None ==> target.addr@ == request@.uri.host->0 + ":80"@
        },
        request@.uri.scheme == Some("wss"@) && request@.uri.host is Some ==> {
            &&& r matches Ok(target)
            &&& target.domain matches Some(domain) && domain@ == request@.uri.host->0
            &&& request@.uri.port is None ==> target.addr@ == request@.uri.host->0 + ":443"@
        },
{
    let scheme = connect_scheme(&request.uri.scheme)?;
    let host = match &request.uri.host {
        Some(host) => Some(host.as_str()),
        None => None,
    };
    let target = connect_stream(scheme, host, request.uri.port);
    proof {
        handshake::schemes_of_websocket("ws"@);
        if target is Ok {
            crate::http::client::target_has_port_of_scheme(target->Ok_0, request@.uri.host->0);
        }
    }
    target
}

/// What is to be done with a stream that a handshake is to be made on.
#[derive(Debug, Clone, Copy, PartialEq, Eq, Structural)]
pub enum ConnectStep {
    /// Drive the stream. The handshake waits until it is established.
    DriveStream,
    /// Start the handshake on the stream with [`WebSocketSession::connect`].
    StartHandshake,
}

/// What is to be done with a stream in that status that a handshake is to be made on.
pub fn connect_step(stream: SessionStatus) -> (r: ConnectStep)
    ensures
        r == if stream == SessionStatus::Established {
            ConnectStep::StartHandshake
        } else {
            ConnectStep::DriveStream
        },
{
    if stream == SessionStatus::Established {
        ConnectStep::StartHandshake
    } else {
        ConnectStep::DriveStream
    }
}

/// Encapsulates a binary session in a [`FrameDuplex`] that serializes/deserializes a WebSocket [`Message`]
/// and provides WebSocket handshake functionality while [`SessionStatus::Establishing`] the session.
///
/// The handshake is made by steps: each step says what is to be done with the stream, and what came of it is handed
/// back.
pub struct WebSocketSession<T, M, S> {
    handshake: Option<PendingHandshake<T, M>>,
    session: Option<FrameDuplex<S, WebSocketFrameDeserializer, WebSocketFrameSerializer>>,
    write_buffer_capacity: usize,
    upgrade_response: Option<Response>,
    automatic_pongs: bool,
    pong_queue: VecDeque<Vec<u8>>,
}

impl<T, M, S> WebSocketSession<T, M, S> {
    /// The handshake that is not complete.
    pub closed spec fn pending(&self) -> Option<PendingHandshake<T, M>> {
        self.handshake
    }

    /// The framed session, once the handshake is complete.
    pub closed spec fn framed(&self) -> Option<
        FrameDuplex<S, WebSocketFrameDeserializer, WebSocketFrameSerializer>,
    > {
        self.session
    }

    /// The capacity of the write buffer that the framed session is made with.
    pub closed spec fn capacity(&self) -> usize {
        self.write_buffer_capacity
    }

    /// The response that completed the handshake.
    pub closed spec fn response(&self) -> Option<Response> {
        self.upgrade_response
    }

    /// Whether pings are answered.
    pub closed spec fn answers_pings(&self) -> bool {
        self.automatic_pongs
    }

    /// The payloads of the pings that have not been answered yet, oldest first.
    pub closed spec fn pongs(&self) -> Seq<Seq<u8>> {
        self.pong_queue@.map_values(|payload: Vec<u8>| payload@)
    }

    /// Whether everything but the framed session and the pings to answer is the same.
    pub open spec fn same_setup(&self, other: &Self) -> bool {
        &&& self.pending() == other.pending()
        &&& self.capacity() == other.capacity()
        &&& self.response() == other.response()
        &&& self.answers_pings() == other.answers_pings()
    }
}

impl<T, M, S> WebSocketSession<T, M, S> where
    S: for<'a> Publish<PublishPayload<'a> = &'a [u8]> + for<'a> Receive<
        ReceivePayload<'a> = &'a [u8],
    > + 'static,
 {
    /// The invariant that every operation keeps.
    pub closed spec fn wf(&self) -> bool {
        &&& self.session matches Some(session) ==> session.wf()
        &&& self.write_buffer_capacity <= isize::MAX / 2 + 1
    }

    /// The status that the session is in.
    pub open spec fn in_status(&self) -> SessionStatus {
        match self.framed() {
            None => match self.pending() {
                None => SessionStatus::Terminated,
                Some(_) => SessionStatus::Establishing,
            },
            Some(x) => x.in_status(),
        }
    }

    /// Start a handshake on a stream that leads to the target of the request. By default, the session will not
    /// automatically send pong responses. To enable automatic pong responses, use
    /// [`WebSocketSession::with_automatic_pongs`]
    pub fn connect(stream: T, request: Request<()>) -> (r: Self)
        ensures
            r.wf(),
            r.pending() == Some(PendingHandshake::<T, M>::StartClientHandshake(stream, request)),
            r.framed() is None,
            r.capacity() == 4096,
            r.response() is None,
            !r.answers_pings(),
            r.pongs().len() == 0,
    {
        Self {
            handshake: Some(PendingHandshake::StartClientHandshake(stream, request)),
            session: None,
            write_buffer_capacity: 4096,
            upgrade_response: None,
            automatic_pongs: false,
            pong_queue: VecDeque::new(),
        }
    }

    /// Set the flag that controls automatically sending pong responses
    pub fn with_automatic_pongs(self) -> (r: Self)
        requires
            self.wf(),
        ensures
            r.wf(),
            r.answers_pings(),
            r.pending() == self.pending(),
            r.framed() == self.framed(),
            r.capacity() == self.capacity(),
            r.response() == self.response(),
            r.pongs() == self.pongs(),
    {
        let mut session = self;
        session.automatic_pongs = true;
        session
    }

    /// Set the underlying `write_buffer_capacity` to a non-default value. Defaults to `4096`.
    pub fn with_write_buffer_capacity(self, write_buffer_capacity: usize) -> (r: Result<Self, Error>)
        requires
            self.wf(),
            write_buffer_capacity <= isize::MAX / 2 + 1,
        ensures
            match self.framed() {
                Some(_) => crate::error::fails(
                    r,
                    ErrorKind::Other,
                    "write_buffer_capacity must be set before connection is established"@,
                ),
                None => {
                    &&& r matches Ok(session)
                    &&& session.wf()
                    &&& session.capacity() == write_buffer_capacity
                    &&& session.framed() is None
                    &&& session.pending() == self.pending()
                    &&& session.response() == self.response()
                    &&& session.answers_pings() == self.answers_pings()
                    &&& session.pongs() == self.pongs()
                },
            },
    {
        if self.session.is_some() {
            return Err(
                Error::new(
                    ErrorKind::Other,
                    "write_buffer_capacity must be set before connection is established",
                ),
            );
        }
        let mut session = self;
        session.write_buffer_capacity = write_buffer_capacity;
        Ok(session)
    }

    /// After connecting as a client, this function can be used to get the initial HTTP response to the Upgrade request.
    /// When requested in any other circumstance, it will return `None`.
    pub fn upgrade_response<'a>(&'a self) -> (r: Option<&'a Response>)
        ensures
            match self.response() {
                Some(response) => r == Some(&response),
                None => r is None,
            },
    {
        match &self.upgrade_response {
            Some(response) => Some(response),
            None => None,
        }
    }

    /// Check the current session status.
    pub fn status(&self) -> (r: SessionStatus)
        ensures
            r == self.in_status(),
    {
        match &self.session {
            None => match &self.handshake {
                None => SessionStatus::Terminated,
                Some(_) => SessionStatus::Establishing,
            },
            Some(x) => x.status(),
        }
    }

    /// Force the session to move to a [`SessionStatus::Terminated`] state immediately.
    pub fn close(&mut self)
        requires
            old(self).wf(),
        ensures
            final(self).wf(),
            final(self).in_status() == SessionStatus::Terminated,
            final(self).capacity() == old(self).capacity(),
            final(self).response() == old(self).response(),
            final(self).answers_pings() == old(self).answers_pings(),
            final(self).pongs() == old(self).pongs(),
            match old(self).framed() {
                Some(session) => final(self).framed() matches Some(post) && session.closes(&post),
                None => final(self).framed() is None && final(self).pending() is None,
            },
    {
        match &mut self.session {
            Some(session) => session.close(),
            None => {
                self.handshake = None;
            },
        }
    }

    /// Whether there is a handshake to complete before the session can be driven.
    pub fn is_handshaking(&self) -> (r: bool)
        ensures
            r == (self.framed() is None),
    {
        self.session.is_none()
    }

    /// Take the next step of the handshake. Until what came of it is handed back there is no handshake.
    pub fn begin_handshake_step(&mut self) -> (r: Result<HandshakeStep<T, M>, Error>)
        requires
            old(self).wf(),
            old(self).framed() is None,
        ensures
            final(self).wf(),
            final(self).pending() is None,
            final(self).framed() is None,
            final(self).capacity() == old(self).capacity(),
            final(self).response() == old(self).response(),
            final(self).answers_pings() == old(self).answers_pings(),
            final(self).pongs() == old(self).pongs(),
            match old(self).pending() {
                None => crate::error::fails(r, ErrorKind::NotConnected, "not connected"@),
                Some(PendingHandshake::MidClientHandshake(accept_key, machine)) => r == Ok::<
                    HandshakeStep<T, M>,
                    Error,
                >(HandshakeStep::Round { machine, accept_key }),
                Some(PendingHandshake::StartClientHandshake(stream, request)) => match r {
                    Ok(step) => {
                        &&& handshake::upgrade_fault(request@) is None
                        &&& handshake::tungstenite_request(
                            request@.uri.path_and_query->0,
                            request@.version,
                            request@.headers,
                        ) matches Ok((bytes, key))
                        &&& step matches HandshakeStep::Write { stream: s, request: written, accept_key }
                        &&& s == stream
                        &&& written@ == bytes
                        &&& accept_key@ == handshake::tungstenite_accept_key(key)
                    },
                    Err(e) => {
                        &&& e.kind == ErrorKind::Other
                        &&& match handshake::upgrade_fault(request@) {
                            Some(text) => e.message@ == text,
                            None => handshake::tungstenite_request(
                                request@.uri.path_and_query->0,
                                request@.version,
                                request@.headers,
                            ) == Err::<(Seq<u8>, Seq<char>), _>(e.message@),
                        }
                    },
                },
            },
    {
        match self.handshake.take() {
            None => Err(Error::new(ErrorKind::NotConnected, "not connected")),
            Some(PendingHandshake::StartClientHandshake(stream, request)) => {
                let start = start_handshake(&request)?;
                Ok(
                    HandshakeStep::Write {
                        stream,
                        request: start.request,
                        accept_key: start.accept_key,
                    },
                )
            },
            Some(PendingHandshake::MidClientHandshake(accept_key, machine)) => Ok(
                HandshakeStep::Round { machine, accept_key },
            ),
        }
    }

    /// The request is being written.
    pub fn handshake_started(&mut self, accept_key: String, machine: M) -> (r: DriveOutcome)
        requires
            old(self).wf(),
        ensures
            final(self).wf(),
            r == DriveOutcome::Active,
            final(self).pending() == Some(
                PendingHandshake::<T, M>::MidClientHandshake(accept_key, machine),
            ),
            final(self).framed() == old(self).framed(),
            final(self).capacity() == old(self).capacity(),
            final(self).response() == old(self).response(),
            final(self).answers_pings() == old(self).answers_pings(),
            final(self).pongs() == old(self).pongs(),
    {
        self.handshake = Some(PendingHandshake::MidClientHandshake(accept_key, machine));
        DriveOutcome::Active
    }

    /// The request is still being written or the response read.
    pub fn handshake_waiting(&mut self, accept_key: String, machine: M) -> (r: DriveOutcome)
        requires
            old(self).wf(),
        ensures
            final(self).wf(),
            r == DriveOutcome::Idle,
            final(self).pending() == Some(
                PendingHandshake::<T, M>::MidClientHandshake(accept_key, machine),
            ),
            final(self).framed() == old(self).framed(),
            final(self).capacity() == old(self).capacity(),
            final(self).response() == old(self).response(),
            final(self).answers_pings() == old(self).answers_pings(),
            final(self).pongs() == old(self).pongs(),
    {
        self.handshake = Some(PendingHandshake::MidClientHandshake(accept_key, machine));
        DriveOutcome::Idle
    }

    /// The response was read. When it completes the handshake, the stream is to be handed to
    /// [`WebSocketSession::establish`].
    pub fn handshake_finished(&mut self, accept_key: &str, response: Response) -> (r: Result<(), Error>)
        requires
            old(self).wf(),
        ensures
            final(self).wf(),
            final(self).pending() == old(self).pending(),
            final(self).framed() == old(self).framed(),
            final(self).capacity() == old(self).capacity(),
            final(self).answers_pings() == old(self).answers_pings(),
            final(self).pongs() == old(self).pongs(),
            match handshake::response_fault(accept_key@, response@) {
                Some(text) => crate::error::fails(r, ErrorKind::Other, text) && final(self).response()
                    == old(self).response(),
                None => r is Ok && final(self).response() == Some(response),
            },
    {
        let response = verify_response(accept_key, response)?;
        self.upgrade_response = Some(response);
        Ok(())
    }

    /// The handshake is complete: go on with the session that the stream is, of which `tail` was read already.
    pub fn establish(&mut self, session: S, tail: &[u8]) -> (r: DriveOutcome)
        requires
            old(self).wf(),
            session.wf(),
        ensures
            final(self).wf(),
            r == DriveOutcome::Active,
            final(self).same_setup(old(self)),
            final(self).pongs() == old(self).pongs(),
            final(self).framed() matches Some(framed) && {
                &&& framed.inner() == session
                &&& framed.unread() == tail@
                &&& framed.deserializer().kept() is None
                &&& framed.unsent().pending() == Seq::<u8>::empty()
                &&& framed.unsent().position() == 0
                &&& crate::buffer::is_next_power_of_two(
                    framed.unsent().capacity() as int + 1,
                    old(self).capacity() as nat,
                )
            },
    {
        let mut framed = FrameDuplex::new(
            session,
            WebSocketFrameDeserializer::new(),
            WebSocketFrameSerializer::new(),
            self.write_buffer_capacity,
        );
        framed.buffer_received(tail);
        assert(framed.unread() =~= tail@);
        self.session = Some(framed);
        DriveOutcome::Active
    }

    /// Whether driving may lead to `post` with the result `r`: the oldest ping is answered, if there is one, and the framed
    /// session is driven. A ping stays as long as the answer was not taken.
    pub open spec fn drives_framed(
        &self,
        framed: &FrameDuplex<S, WebSocketFrameDeserializer, WebSocketFrameSerializer>,
        post: &Self,
        post_framed: &FrameDuplex<S, WebSocketFrameDeserializer, WebSocketFrameSerializer>,
        r: Result<DriveOutcome, Error>,
    ) -> bool {
        if self.pongs().len() == 0 {
            framed.drives(post_framed, r) && post.pongs() == self.pongs()
        } else {
            exists|
                pong: Message,
                mid: FrameDuplex<S, WebSocketFrameDeserializer, WebSocketFrameSerializer>,
                p: Result<PublishOutcome<Message>, Error>,
            | #[trigger]
                framed.publishes(pong, &mid, p) && pong@ == message::MessageView::Pong(self.pongs()[0])
                    && match p {
                    Err(e) => {
                        &&& r == Err::<DriveOutcome, Error>(e)
                        &&& *post_framed == mid
                        &&& post.pongs() == self.pongs()
                    },
                    Ok(outcome) => {
                        &&& post.pongs() == if outcome is Published {
                            self.pongs().drop_first()
                        } else {
                            self.pongs()
                        }
                        &&& exists|d: Result<DriveOutcome, Error>| #[trigger]
                            mid.drives(post_framed, d) && r == match d {
                                Ok(_) => Ok(DriveOutcome::Active),
                                Err(e) => Err(e),
                            }
                    },
                }
        }
    }

    /// Answer a ping and drive the session, once the handshake is complete.
    pub fn drive(&mut self) -> (r: Result<DriveOutcome, Error>)
        requires
            old(self).wf(),
            old(self).framed() is Some,
        ensures
            final(self).wf(),
            final(self).same_setup(old(self)),
            final(self).framed() is Some,
            old(self).drives_framed(&old(self).framed()->0, final(self), &final(self).framed()->0, r),
    {
        let ghost framed = self.framed()->0;
        let ghost pongs = self.pongs();
        let session = match &mut self.session {
            Some(session) => session,
            None => vstd::pervasive::unreached(),
        };
        let mut outcome = DriveOutcome::Idle;
        if self.pong_queue.len() > 0 {
            let pong = Message::Pong(Cow::Borrowed(self.pong_queue[0].as_slice()));
            assert(pong@ == message::MessageView::Pong(pongs[0]));
            let published = session.publish(pong);
            assert(framed.publishes(pong, session, published));
            if let PublishOutcome::Published = published? {
                self.pong_queue.pop_front();
                assert(self.pong_queue@.map_values(|payload: Vec<u8>| payload@) =~= pongs.drop_first());
            }
            outcome = DriveOutcome::Active;
        }
        let ghost mid = *session;
        let driven = session.drive();
        assert(mid.drives(session, driven));
        if driven? == DriveOutcome::Active {
            outcome = DriveOutcome::Active;
        }
        Ok(outcome)
    }

    /// Attempt to receive a message, once the handshake is complete. A ping is queued to be answered, if pings are.
    pub fn receive<'a>(&'a mut self) -> (r: Result<ReceiveOutcome<Message<'a>>, Error>)
        requires
            old(self).wf(),
        ensures
            final(self).wf(),
            final(self).same_setup(old(self)),
            match old(self).framed() {
                None => {
                    &&& crate::error::fails(r, ErrorKind::NotConnected, "not connected"@)
                    &&& final(self).framed() is None
                    &&& final(self).pongs() == old(self).pongs()
                },
                Some(framed) => {
                    &&& final(self).framed() matches Some(post)
                    &&& framed.receives(&post, r)
                    &&& final(self).pongs() == match r {
                        Ok(ReceiveOutcome::Payload(Message::Ping(payload))) => if old(
                            self,
                        ).answers_pings() {
                            old(self).pongs().push(payload@)
                        } else {
                            old(self).pongs()
                        },
                        _ => old(self).pongs(),
                    }
                },
            },
    {
        let ghost pongs = self.pongs();
        match &mut self.session {
            None => Err(Error::new(ErrorKind::NotConnected, "not connected")),
            Some(session) => {
                let message = session.receive()?;
                if self.automatic_pongs {
                    if let ReceiveOutcome::Payload(Message::Ping(payload)) = &message {
                        self.pong_queue.push_back(slice_to_vec(message::cow_bytes(payload)));
                        assert(self.pong_queue@.map_values(|payload: Vec<u8>| payload@) =~= pongs.push(
                            payload@,
                        ));
                    }
                }
                Ok(message)
            },
        }
    }

    /// Write a message to the session, once the handshake is complete.
    pub fn publish<'a>(&mut self, data: Message<'a>) -> (r: Result<PublishOutcome<Message<'a>>, Error>)
        requires
            old(self).wf(),
        ensures
            final(self).wf(),
            final(self).same_setup(old(self)),
            final(self).pongs() == old(self).pongs(),
            match old(self).framed() {
                None => {
                    &&& crate::error::fails(r, ErrorKind::NotConnected, "not connected"@)
                    &&& final(self).framed() is None
                },
                Some(framed) => final(self).framed() matches Some(post) && framed.publishes(
                    data,
                    &post,
                    r,
                ),
            },
    {
        match &mut self.session {
            None => Err(Error::new(ErrorKind::NotConnected, "not connected")),
            Some(session) => session.publish(data),
        }
    }
}

impl<T, M, S> WebSocketSession<T, M, S> where
    S: for<'a> Publish<PublishPayload<'a> = &'a [u8]> + for<'a> Receive<
        ReceivePayload<'a> = &'a [u8],
    > + Flush + 'static,
 {
    /// Flush all pending publish data, once the handshake is complete.
    pub fn flush(&mut self) -> (r: Result<(), Error>)
        requires
            old(self).wf(),
        ensures
            final(self).wf(),
            final(self).same_setup(old(self)),
            final(self).pongs() == old(self).pongs(),
            match old(self).framed() {
                None => {
                    &&& crate::error::fails(r, ErrorKind::NotConnected, "not connected"@)
                    &&& final(self).framed() is None
                },
                Some(framed) => final(self).framed() matches Some(post) && framed.flushes(&post, r),
            },
    {
        match &mut self.session {
            None => Err(Error::new(ErrorKind::NotConnected, "not connected")),
            Some(session) => session.flush(),
        }
    }
}

/// A session is established when the handshake is complete and its stream is established, establishing while there is a
/// handshake to complete, and terminated when there is neither.
pub proof fn status_follows_handshake<T, M, S>(session: WebSocketSession<T, M, S>) where
    S: for<'a> Publish<PublishPayload<'a> = &'a [u8]> + for<'a> Receive<
        ReceivePayload<'a> = &'a [u8],
    > + 'static,

    ensures
        session.framed() matches Some(framed) ==> session.in_status() == framed.inner().in_status(),
        session.framed() is None && session.pending() is Some ==> session.in_status() == SessionStatus::Establishing,
        session.framed() is None && session.pending() is None ==> session.in_status() == SessionStatus::Terminated,
{
}

/// The oldest ping is answered first, with a pong of the same payload, which a peer reads behind all bytes that were sent
/// before; it is then no longer waited to be answered, and all others still are. Without a ping nothing is added. This holds
/// of every drive that does not fail.
pub proof fn oldest_ping_is_answered<T, M, S>(
    pre: WebSocketSession<T, M, S>,
    post: WebSocketSession<T, M, S>,
    r: Result<DriveOutcome, Error>,
    sent: spec_fn(S) -> Seq<u8>,
    rest: Seq<u8>,
) where
    S: for<'a> Publish<PublishPayload<'a> = &'a [u8]> + for<'a> Receive<
        ReceivePayload<'a> = &'a [u8],
    > + 'static,

    requires
        pre.framed() is Some,
        pre.framed()->0.wf(),
        post.framed() is Some,
        crate::frame::counts_sent(sent),
        pre.drives_framed(&pre.framed()->0, &post, &post.framed()->0, r),
        r is Ok,
    ensures
        ({
            let before = sent(pre.framed()->0.inner()) + pre.framed()->0.unsent().pending();
            let after = sent(post.framed()->0.inner()) + post.framed()->0.unsent().pending();
            if post.pongs() == pre.pongs() {
                after == before
            } else {
                let added = after.skip(before.len() as int);
                &&& pre.pongs().len() > 0
                &&& post.pongs() == pre.pongs().drop_first()
                &&& after == before + added
                &&& coding::peer_frame(added + rest) matches Some(frame)
                &&& frame.code == 10
                &&& frame.payload == pre.pongs()[0]
                &&& frame.size == added.len()
                &&& r == Ok::<DriveOutcome, Error>(DriveOutcome::Active)
            }
        }),
        pre.pongs().len() > 0 && pre.framed()->0.in_status() == SessionStatus::Established
            && pre.framed()->0.unsent().pending().len() == 0 ==> post.pongs() == pre.pongs().drop_first(),
        post.framed()->0.unread() == pre.framed()->0.unread(),
{
    let framed = pre.framed()->0;
    let post_framed = post.framed()->0;
    let before = sent(framed.inner()) + framed.unsent().pending();
    let after = sent(post_framed.inner()) + post_framed.unsent().pending();
    if pre.pongs().len() == 0 {
        crate::frame::drive_keeps_bytes(framed, post_framed, r, sent);
    } else {
        let (pong, mid, p) = choose|
            pong: Message,
            mid: FrameDuplex<S, WebSocketFrameDeserializer, WebSocketFrameSerializer>,
            p: Result<PublishOutcome<Message>, Error>,
        | #[trigger]
            framed.publishes(pong, &mid, p) && pong@ == message::MessageView::Pong(pre.pongs()[0]) && match p {
                Err(e) => {
                    &&& r == Err::<DriveOutcome, Error>(e)
                    &&& post_framed == mid
                    &&& post.pongs() == pre.pongs()
                },
                Ok(outcome) => {
                    &&& post.pongs() == if outcome is Published {
                        pre.pongs().drop_first()
                    } else {
                        pre.pongs()
                    }
                    &&& exists|d: Result<DriveOutcome, Error>| #[trigger]
                        mid.drives(&post_framed, d) && r == match d {
                            Ok(_) => Ok(DriveOutcome::Active),
                            Err(e) => Err(e),
                        }
                },
            };
        let d = choose|d: Result<DriveOutcome, Error>| #[trigger]
            mid.drives(&post_framed, d) && r == match d {
                Ok(_) => Ok(DriveOutcome::Active),
                Err(e) => Err(e),
            };
        crate::frame::unsent_position_is_in_storage(framed);
        crate::frame::driving_keeps_bytes(mid.inner(), mid.unsent(), post_framed.inner(), post_framed.unsent(), d, sent);
        frame::published_message_is_read_by_peer(
            framed.serializer(),
            pong,
            framed.unsent(),
            mid.serializer(),
            mid.unsent(),
            p,
            rest,
        );
        if p->Ok_0 is Published {
            let added = mid.unsent().pending().skip(framed.unsent().pending().len() as int);
            assert(after =~= before + added);
            assert(after.skip(before.len() as int) =~= added);
            assert(pre.pongs().drop_first().len() != pre.pongs().len());
        } else {
            assert(after =~= before);
        }
    }
}

/// A message is published to an established session only, and is then behind all unsent bytes in one frame that a peer
/// reads back, or waits as it is.
pub proof fn published_message_is_behind_unsent_bytes<S>(
    pre: FrameDuplex<S, WebSocketFrameDeserializer, WebSocketFrameSerializer>,
    data: Message,
    post: FrameDuplex<S, WebSocketFrameDeserializer, WebSocketFrameSerializer>,
    r: Result<PublishOutcome<Message>, Error>,
    rest: Seq<u8>,
) where S: for<'a> Publish<PublishPayload<'a> = &'a [u8]> + 'static
    requires
        pre.publishes(data, &post, r),
        !(data@ is Frame),
    ensures
        post.inner() == pre.inner(),
        post.unread() == pre.unread(),
        pre.in_status() != SessionStatus::Established ==> r is Err && post.unsent() == pre.unsent(),
        match r {
            Ok(PublishOutcome::Published) => {
                let added = post.unsent().pending().skip(pre.unsent().pending().len() as int);
                &&& post.unsent().pending() == pre.unsent().pending() + added
                &&& coding::peer_frame(added + rest) matches Some(frame)
                &&& frame.size == added.len()
                &&& frame.payload == data@.bytes()
            },
            _ => post.unsent().pending() == pre.unsent().pending(),
        },
{
    if pre.in_status() == SessionStatus::Established {
        frame::published_message_is_read_by_peer(
            pre.serializer(),
            data,
            pre.unsent(),
            post.serializer(),
            post.unsent(),
            r,
            rest,
        );
        if let Ok(PublishOutcome::Published) = r {
            match data@ {
                message::MessageView::Close(close) => {
                    let frame = coding::peer_frame(
                        post.unsent().pending().skip(pre.unsent().pending().len() as int) + rest,
                    )->0;
                    match close {
                        None => {
                            assert(frame.payload =~= data@.bytes());
                        },
                        Some((code, reason)) => {
                            message::message_has_its_bytes(reason, Seq::empty(), code);
                            let bytes = data@.bytes();
                            assert(bytes =~= seq![bytes[0], bytes[1]] + bytes.skip(2));
                            assert(frame.payload.len() >= 2);
                            assert(frame.payload =~= seq![frame.payload[0], frame.payload[1]] + frame.payload.skip(2));
                        },
                    }
                },
                _ => {},
            }
        }
    }
}

/// Sessions of the same setup have the same handshake, write buffer capacity, response and setting for pings.
pub proof fn same_setup_is_the_same<T, M, S>(session: WebSocketSession<T, M, S>, other: WebSocketSession<T, M, S>)
    requires
        session.same_setup(&other),
    ensures
        session.pending() == other.pending(),
        session.capacity() == other.capacity(),
        session.response() == other.response(),
        session.answers_pings() == other.answers_pings(),
{
}

/// A message whose frame was received is given at once: `header` are bytes that are parsed to its header, which is unmasked.
/// The bytes of the frame are no longer unread, and those behind it still are.
pub proof fn received_frame_is_given_as_message<S>(
    pre: FrameDuplex<S, WebSocketFrameDeserializer, WebSocketFrameSerializer>,
    message: message::MessageView,
    header: Seq<u8>,
    rest: Seq<u8>,
    post: FrameDuplex<S, WebSocketFrameDeserializer, WebSocketFrameSerializer>,
    r: Result<ReceiveOutcome<Message>, Error>,
) where
    S: for<'a> Publish<PublishPayload<'a> = &'a [u8]> + for<'a> Receive<
        ReceivePayload<'a> = &'a [u8],
    > + 'static,

    requires
        !(message is Frame),
        header.len() > 0,
        message.bytes().len() <= u64::MAX,
        coding::tungstenite_header(header + (message.bytes() + rest)) == Ok::<_, Seq<char>>(
            Some((coding::plain_header(message.opcode()).coded(), header.len(), message.bytes().len() as u64)),
        ),
        pre.deserializer().kept() is None,
        pre.unread() == header + (message.bytes() + rest),
        pre.receives(&post, r),
    ensures
        r matches Ok(ReceiveOutcome::Payload(x)) && x@ == message,
        post.unread() == rest,
        post.deserializer().kept() is None,
        post.inner() == pre.inner(),
{
    frame::whole_frame_is_next_message(message.opcode(), header, message.bytes(), rest);
    frame::whole_message_is_next(message, header, rest);
    let unread = pre.unread();
    assert(unread.skip((header.len() + message.bytes().len()) as int) =~= rest);
}

} // verus!
