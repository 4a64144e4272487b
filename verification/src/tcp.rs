//! Provides the state of a TCP session and simple server decisions
//!
//! The sockets themselves belong to the caller: each operation says what is to be done with them, and takes what came of
//! it.
use std::sync::Arc;

use vstd::prelude::*;
use vstd::slice::slice_subrange;

use crate::error::{Error, ErrorKind};
use crate::tls::IntoTlsOutcome;
use crate::{DriveOutcome, PublishOutcome, ReceiveOutcome, SessionStatus};

verus! {

/// State machine of a TCP connection
///
/// `R` resolves an address, `I` is a socket that is being connected, `C` is a stream, and `H` a stream in the middle of a
/// TLS handshake. A state before the stream exists holds the domain to start a TLS handshake for, if there is to be one.
pub enum TcpConnection<R, I, C, H> {
    AddressResolution(R, Option<String>),
    Initializing(I, Option<String>),
    Connecting(C),
    IntoTls(H),
    Connected(C),
}

/// What is to be done to drive a connection. What came of it is handed back to the session; when it failed, nothing is,
/// and the session is terminated.
pub enum TcpStep<R, I, C, H> {
    /// Nothing is to be done.
    Done(DriveOutcome),
    /// Poll the address resolution, and go on with [`TcpSession::resolving`] or [`TcpSession::resolved`].
    Resolve(R, Option<String>),
    /// Poll the socket, and go on with [`TcpSession::initializing`] or [`TcpSession::initialized`].
    Initialize(I, Option<String>),
    /// Try to connect the stream, and go on with [`TcpSession::connecting`].
    Connect(C),
    /// Poll the TLS handshake, and go on with [`TcpSession::handshaking`].
    Handshake(H),
}

/// What is to be done to start a TLS handshake.
pub enum TlsStart<T, R, I, C, H> {
    /// The handshake is started when there is a stream.
    Deferred(TcpSession<T, R, I, C, H>),
    /// Start the handshake on the stream, and go on with [`TcpSession::handshake_started`].
    Start(TcpSession<T, R, I, C, H>, C),
}

/// A TCP session that can publish and receive bytes
///
/// This implementation does not provide any framing guarantees.
/// Buffers will be returned as they are read from the underlying sockets.
/// Writes may be partially completed, with the remaining slice returned as [`PublishOutcome::Incomplete`].
///
/// A plain TCP session can be converted to a TLS session by initiating a TLS handshake via [`TcpSession::into_tls`].
/// The TLS handshake is considered part of the connection process and will be driven to completion by driving the
/// session. While a TLS handshake is in progress, calls to [`TcpSession::status`] will return
/// [`SessionStatus::Establishing`] and calls to read and write will fail.
///
/// `T` is the TLS connector to start handshakes with.
pub struct TcpSession<T, R, I, C, H> {
    read_buffer: Vec<u8>,
    connection: Option<TcpConnection<R, I, C, H>>,
    tls_connector: Option<Arc<T>>,
}

impl<T, R, I, C, H> TcpSession<T, R, I, C, H> {
    /// The state of the connection.
    pub closed spec fn state(&self) -> Option<TcpConnection<R, I, C, H>> {
        self.connection
    }

    /// The buffer that is read into.
    pub closed spec fn buffer(&self) -> Seq<u8> {
        self.read_buffer@
    }

    /// The TLS connector that was set.
    pub closed spec fn connector(&self) -> Option<Arc<T>> {
        self.tls_connector
    }

    /// The status that the session is in.
    pub open spec fn in_status(&self) -> SessionStatus {
        match self.state() {
            None => SessionStatus::Terminated,
            Some(TcpConnection::Connected(_)) => SessionStatus::Established,
            Some(_) => SessionStatus::Establishing,
        }
    }

    /// Whether everything but the state of the connection is the same.
    pub open spec fn same_setup(&self, other: &Self) -> bool {
        self.buffer() == other.buffer() && self.connector() == other.connector()
    }

    /// Create a session for an existing stream, with a read buffer capacity of 4096.
    ///
    /// `connected` is whether the stream is connected already.
    pub fn new(stream: C, connected: bool) -> (r: Self)
        ensures
            r.state() == Some(
                if connected {
                    TcpConnection::<R, I, C, H>::Connected(stream)
                } else {
                    TcpConnection::Connecting(stream)
                },
            ),
            r.buffer() == Seq::new(4096, |i: int| 0u8),
            r.connector() is None,
    {
        let mut read_buffer: Vec<u8> = Vec::new();
        read_buffer.resize(4096, 0);
        assert(read_buffer@ =~= Seq::new(4096, |i: int| 0u8));
        Self {
            connection: if connected {
                Some(TcpConnection::Connected(stream))
            } else {
                Some(TcpConnection::Connecting(stream))
            },
            read_buffer,
            tls_connector: None,
        }
    }

    /// Create a session that connects to the address that is being resolved.
    pub fn connect(resolution: R, tls_connector: Option<Arc<T>>) -> (r: Self)
        ensures
            r.state() == Some(TcpConnection::<R, I, C, H>::AddressResolution(resolution, None)),
            r.buffer() == Seq::new(4096, |i: int| 0u8),
            r.connector() == tls_connector,
    {
        let mut read_buffer: Vec<u8> = Vec::new();
        read_buffer.resize(4096, 0);
        assert(read_buffer@ =~= Seq::new(4096, |i: int| 0u8));
        Self {
            connection: Some(TcpConnection::AddressResolution(resolution, None)),
            read_buffer,
            tls_connector,
        }
    }

    /// Set the TLS connector to use for a TLS handshake.
    pub fn tls_connector(self, tls_connector: Arc<T>) -> (r: Self)
        ensures
            r.connector() == Some(tls_connector),
            r.state() == self.state(),
            r.buffer() == self.buffer(),
    {
        Self {
            read_buffer: self.read_buffer,
            connection: self.connection,
            tls_connector: Some(tls_connector),
        }
    }

    /// The TLS connector to use for a TLS handshake, if one was set.
    pub fn get_tls_connector(&self) -> (r: &Option<Arc<T>>)
        ensures
            *r == self.connector(),
    {
        &self.tls_connector
    }

    /// Set the underlying read buffer capacity, which must be greater than or equal to the current read buffer length
    pub fn with_read_buffer_capacity(self, read_buffer_capacity: usize) -> (r: Result<Self, Error>)
        ensures
            if read_buffer_capacity < self.buffer().len() {
                crate::error::fails(
                    r,
                    ErrorKind::Other,
                    "new read buffer capacity must be greater than or equal to than current length"@,
                )
            } else {
                &&& r matches Ok(session)
                &&& session.buffer() == self.buffer() + Seq::new(
                    (read_buffer_capacity - self.buffer().len()) as nat,
                    |i: int| 0u8,
                )
                &&& session.state() == self.state()
                &&& session.connector() == self.connector()
            },
    {
        if read_buffer_capacity < self.read_buffer.len() {
            return Err(
                Error::new(
                    ErrorKind::Other,
                    "new read buffer capacity must be greater than or equal to than current length",
                ),
            );
        }
        let mut session = self;
        let ghost before = session.read_buffer@;
        session.read_buffer.resize(read_buffer_capacity, 0);
        assert(session.read_buffer@ =~= before + Seq::new(
            (read_buffer_capacity - before.len()) as nat,
            |i: int| 0u8,
        ));
        Ok(session)
    }

    /// Start the TLS handshake.
    ///
    /// While the TLS handshake is in progress, [`TcpSession::status`] will return [`SessionStatus::Establishing`].
    /// The TLS handshake can be driven to completion by driving the session.
    pub fn into_tls(self, domain: &str) -> (r: Result<TlsStart<T, R, I, C, H>, Error>)
        ensures
            match self.state() {
                Some(TcpConnection::Initializing(socket, None)) => {
                    &&& r matches Ok(TlsStart::Deferred(session))
                    &&& session.state() matches Some(TcpConnection::Initializing(s, Some(d)))
                    &&& s == socket && d@ == domain@
                    &&& session.same_setup(&self)
                },
                Some(TcpConnection::Initializing(_, Some(_))) => crate::error::fails(
                    r,
                    ErrorKind::NotConnected,
                    "stream already initialized for TLS"@,
                ),
                Some(TcpConnection::AddressResolution(resolution, _)) => {
                    &&& r matches Ok(TlsStart::Deferred(session))
                    &&& session.state() matches Some(TcpConnection::AddressResolution(x, Some(d)))
                    &&& x == resolution && d@ == domain@
                    &&& session.same_setup(&self)
                },
                Some(TcpConnection::Connecting(stream)) | Some(TcpConnection::Connected(stream)) => {
                    &&& r matches Ok(TlsStart::Start(session, s))
                    &&& s == stream
                    &&& session.state() is None
                    &&& session.same_setup(&self)
                },
                Some(TcpConnection::IntoTls(_)) => crate::error::fails(
                    r,
                    ErrorKind::Other,
                    "stream already mid-handshake"@,
                ),
                None => crate::error::fails(r, ErrorKind::NotConnected, "stream not connected"@),
            },
    {
        let mut session = self;
        match session.connection.take() {
            Some(TcpConnection::Initializing(socket, None)) => {
                session.connection = Some(TcpConnection::Initializing(socket, Some(domain.to_owned())));
                Ok(TlsStart::Deferred(session))
            },
            Some(TcpConnection::Initializing(_, Some(_))) => Err(
                Error::new(ErrorKind::NotConnected, "stream already initialized for TLS"),
            ),
            Some(TcpConnection::Connecting(x)) => Ok(TlsStart::Start(session, x)),
            Some(TcpConnection::Connected(x)) => Ok(TlsStart::Start(session, x)),
            Some(TcpConnection::IntoTls(_)) => Err(
                Error::new(ErrorKind::Other, "stream already mid-handshake"),
            ),
            Some(TcpConnection::AddressResolution(x, _)) => {
                session.connection = Some(
                    TcpConnection::AddressResolution(x, Some(domain.to_owned())),
                );
                Ok(TlsStart::Deferred(session))
            },
            None => Err(Error::new(ErrorKind::NotConnected, "stream not connected")),
        }
    }

    /// Check the current session status.
    pub fn status(&self) -> (r: SessionStatus)
        ensures
            r == self.in_status(),
    {
        match &self.connection {
            None => SessionStatus::Terminated,
            Some(TcpConnection::Connected(_)) => SessionStatus::Established,
            Some(_) => SessionStatus::Establishing,
        }
    }

    /// Move to a [`SessionStatus::Terminated`] state immediately, and give what is to be shut down.
    pub fn close(&mut self) -> (r: Option<TcpConnection<R, I, C, H>>)
        ensures
            r == old(self).state(),
            final(self).in_status() == SessionStatus::Terminated,
            final(self).same_setup(old(self)),
    {
        self.connection.take()
    }

    /// Extract the stream if and only if it is in a connected state.
    pub fn into_stream(self) -> (r: Option<C>)
        ensures
            match self.state() {
                Some(TcpConnection::Connected(stream)) => r == Some(stream),
                _ => r is None,
            },
    {
        match self.connection {
            Some(TcpConnection::Connected(x)) => Some(x),
            _ => None,
        }
    }

    /// The stream, if there is one.
    pub fn stream<'a>(&'a self) -> (r: Result<&'a C, Error>)
        ensures
            match self.state() {
                Some(TcpConnection::Connecting(stream)) | Some(TcpConnection::Connected(stream)) => r
                    == Ok::<&C, Error>(&stream),
                Some(TcpConnection::Initializing(_, _)) => crate::error::fails(
                    r,
                    ErrorKind::NotConnected,
                    "stream is initializing"@,
                ),
                Some(TcpConnection::IntoTls(_)) => crate::error::fails(
                    r,
                    ErrorKind::NotConnected,
                    "stream is mid-handshake"@,
                ),
                Some(TcpConnection::AddressResolution(_, _)) => crate::error::fails(
                    r,
                    ErrorKind::NotConnected,
                    "stream in address resolution"@,
                ),
                None => crate::error::fails(r, ErrorKind::NotConnected, "stream not connected"@),
            },
    {
        match &self.connection {
            Some(TcpConnection::Initializing(_, _)) => Err(
                Error::new(ErrorKind::NotConnected, "stream is initializing"),
            ),
            Some(TcpConnection::Connecting(x)) => Ok(x),
            Some(TcpConnection::Connected(x)) => Ok(x),
            Some(TcpConnection::IntoTls(_)) => Err(
                Error::new(ErrorKind::NotConnected, "stream is mid-handshake"),
            ),
            Some(TcpConnection::AddressResolution(_, _)) => Err(
                Error::new(ErrorKind::NotConnected, "stream in address resolution"),
            ),
            None => Err(Error::new(ErrorKind::NotConnected, "stream not connected")),
        }
    }

    /// What is to be done to drive the session; nothing can be done when it is terminated.
    pub open spec fn step(&self) -> Option<TcpStep<R, I, C, H>> {
        match self.state() {
            Some(TcpConnection::AddressResolution(x, tls)) => Some(TcpStep::Resolve(x, tls)),
            Some(TcpConnection::Initializing(x, tls)) => Some(TcpStep::Initialize(x, tls)),
            Some(TcpConnection::Connecting(x)) => Some(TcpStep::Connect(x)),
            Some(TcpConnection::IntoTls(x)) => Some(TcpStep::Handshake(x)),
            Some(TcpConnection::Connected(_)) => Some(TcpStep::Done(DriveOutcome::Idle)),
            None => None,
        }
    }

    /// Whether a drive that takes `step` may end in the state `post` with the result `r`: with what came of the step handed
    /// back, or with an error and nothing handed back.
    pub open spec fn follows(
        step: TcpStep<R, I, C, H>,
        post: Option<TcpConnection<R, I, C, H>>,
        r: Result<DriveOutcome, Error>,
    ) -> bool {
        match r {
            Err(_) => !(step is Done) && post is None,
            Ok(o) => match step {
                TcpStep::Done(outcome) => o == outcome && post matches Some(TcpConnection::Connected(_)),
                TcpStep::Resolve(_, asked) => {
                    ||| post matches Some(TcpConnection::AddressResolution(_, tls)) && tls == asked
                    ||| post matches Some(TcpConnection::Initializing(_, tls)) && tls == asked && o
                        == DriveOutcome::Active
                },
                TcpStep::Initialize(_, asked) => {
                    ||| post matches Some(TcpConnection::Initializing(_, tls)) && tls == asked && o
                        == DriveOutcome::Idle
                    ||| (post matches Some(TcpConnection::Connected(_))) && asked is None && o
                        == DriveOutcome::Active
                    ||| (post matches Some(TcpConnection::IntoTls(_))) && asked is Some && o
                        == DriveOutcome::Active
                },
                TcpStep::Connect(_) => {
                    ||| (post matches Some(TcpConnection::Connecting(_))) && o == DriveOutcome::Idle
                    ||| (post matches Some(TcpConnection::Connected(_))) && o == DriveOutcome::Active
                },
                TcpStep::Handshake(_) => {
                    ||| post matches Some(TcpConnection::IntoTls(_))
                    ||| (post matches Some(TcpConnection::Connected(_))) && o == DriveOutcome::Active
                },
            },
        }
    }

    /// Whether a whole drive may lead to `post` with the result `r`.
    pub open spec fn drives(&self, post: &Self, r: Result<DriveOutcome, Error>) -> bool {
        match self.step() {
            Some(step) => Self::follows(step, post.state(), r),
            None => {
                &&& crate::error::fails(r, ErrorKind::NotConnected, "stream not connected"@)
                &&& post.state() is None
            },
        }
    }

    /// The domain that a TLS handshake is to be started for as soon as there is a stream.
    pub open spec fn pending_domain(&self) -> Option<String> {
        match self.state() {
            Some(TcpConnection::AddressResolution(_, tls)) => tls,
            Some(TcpConnection::Initializing(_, tls)) => tls,
            _ => None,
        }
    }

    /// Take what is to be driven. Until what came of it is handed back the session is terminated, unless nothing is to be
    /// done.
    pub fn begin_drive(&mut self) -> (r: Result<TcpStep<R, I, C, H>, Error>)
        ensures
            final(self).same_setup(old(self)),
            match old(self).step() {
                Some(step) => {
                    &&& r == Ok::<_, Error>(step)
                    &&& final(self).state() == if step is Done {
                        old(self).state()
                    } else {
                        None
                    }
                    &&& match step {
                        TcpStep::Done(o) => Self::follows(step, final(self).state(), Ok(o)),
                        _ => forall|e: Error| #[trigger] Self::follows(step, final(self).state(), Err(e)),
                    }
                },
                None => crate::error::fails(r, ErrorKind::NotConnected, "stream not connected"@)
                    && final(self).state() is None,
            },
    {
        match self.connection.take() {
            Some(TcpConnection::AddressResolution(x, tls)) => Ok(TcpStep::Resolve(x, tls)),
            Some(TcpConnection::Connected(x)) => {
                self.connection = Some(TcpConnection::Connected(x));
                Ok(TcpStep::Done(DriveOutcome::Idle))
            },
            Some(TcpConnection::Initializing(x, tls)) => Ok(TcpStep::Initialize(x, tls)),
            Some(TcpConnection::Connecting(x)) => Ok(TcpStep::Connect(x)),
            Some(TcpConnection::IntoTls(x)) => Ok(TcpStep::Handshake(x)),
            None => Err(Error::new(ErrorKind::NotConnected, "stream not connected")),
        }
    }

    /// The address resolution is not finished; `active` is whether it made progress.
    pub fn resolving(&mut self, resolution: R, tls: Option<String>, active: bool) -> (r: DriveOutcome)
        ensures
            final(self).same_setup(old(self)),
            final(self).state() == Some(
                TcpConnection::<R, I, C, H>::AddressResolution(resolution, tls),
            ),
            Self::follows(TcpStep::Resolve(resolution, tls), final(self).state(), Ok(r)),
            r == if active {
                DriveOutcome::Active
            } else {
                DriveOutcome::Idle
            },
    {
        self.connection = Some(TcpConnection::AddressResolution(resolution, tls));
        if active {
            DriveOutcome::Active
        } else {
            DriveOutcome::Idle
        }
    }

    /// The address was resolved, and a socket is being connected to it.
    pub fn resolved(&mut self, socket: I, tls: Option<String>) -> (r: DriveOutcome)
        ensures
            final(self).same_setup(old(self)),
            final(self).state() == Some(TcpConnection::<R, I, C, H>::Initializing(socket, tls)),
            forall|resolution: R|
                #[trigger] Self::follows(TcpStep::Resolve(resolution, tls), final(self).state(), Ok(r)),
            r == DriveOutcome::Active,
    {
        self.connection = Some(TcpConnection::Initializing(socket, tls));
        DriveOutcome::Active
    }

    /// The socket has no peer yet. It is still being connected when the reason is that it is not connected, or that the
    /// connection is in progress; any other reason is an error, which terminates the session.
    pub fn initializing(&mut self, socket: I, tls: Option<String>, err: Error, in_progress: bool) -> (r:
        Result<DriveOutcome, Error>)
        requires
            old(self).state() is None,
        ensures
            final(self).same_setup(old(self)),
            if err.kind == ErrorKind::NotConnected || in_progress {
                &&& r == Ok::<DriveOutcome, Error>(DriveOutcome::Idle)
                &&& final(self).state() == Some(TcpConnection::<R, I, C, H>::Initializing(socket, tls))
            } else {
                &&& r == Err::<DriveOutcome, Error>(err)
                &&& final(self).state() is None
            },
            Self::follows(TcpStep::Initialize(socket, tls), final(self).state(), r),
    {
        // `NotConnected`/`ENOTCONN` => still connecting
        // `ECONNREFUSED` => failed
        if err.kind == ErrorKind::NotConnected || in_progress {
            self.connection = Some(TcpConnection::Initializing(socket, tls));
            Ok(DriveOutcome::Idle)
        } else {
            Err(err)
        }
    }

    /// The socket is connected and became a stream. When a domain is given back, a TLS handshake is to be started on the
    /// stream that comes with it, and the session goes on with [`TcpSession::handshake_started`].
    pub fn initialized(&mut self, stream: C, tls: Option<String>) -> (r: Option<(C, String)>)
        requires
            old(self).state() is None,
        ensures
            final(self).same_setup(old(self)),
            match tls {
                None => r is None && final(self).state() == Some(
                    TcpConnection::<R, I, C, H>::Connected(stream),
                ),
                Some(domain) => r == Some((stream, domain)) && final(self).state() is None,
            },
            tls is None ==> forall|socket: I| #[trigger]
                Self::follows(
                    TcpStep::Initialize(socket, tls),
                    final(self).state(),
                    Ok(DriveOutcome::Active),
                ),
    {
        match tls {
            None => {
                self.connection = Some(TcpConnection::Connected(stream));
                None
            },
            Some(domain) => Some((stream, domain)),
        }
    }

    /// A TLS handshake was started.
    pub fn handshake_started(&mut self, handshake: H) -> (r: DriveOutcome)
        ensures
            final(self).same_setup(old(self)),
            final(self).state() == Some(TcpConnection::<R, I, C, H>::IntoTls(handshake)),
            r == DriveOutcome::Active,
            forall|socket: I, domain: String| #[trigger]
                Self::follows(TcpStep::Initialize(socket, Some(domain)), final(self).state(), Ok(r)),
    {
        self.connection = Some(TcpConnection::IntoTls(handshake));
        DriveOutcome::Active
    }

    /// It was tried to connect the stream; `connected` is whether it is.
    pub fn connecting(&mut self, stream: C, connected: bool) -> (r: DriveOutcome)
        ensures
            final(self).same_setup(old(self)),
            if connected {
                &&& r == DriveOutcome::Active
                &&& final(self).state() == Some(TcpConnection::<R, I, C, H>::Connected(stream))
            } else {
                &&& r == DriveOutcome::Idle
                &&& final(self).state() == Some(TcpConnection::<R, I, C, H>::Connecting(stream))
            },
            Self::follows(TcpStep::Connect(stream), final(self).state(), Ok(r)),
    {
        if connected {
            self.connection = Some(TcpConnection::Connected(stream));
            DriveOutcome::Active
        } else {
            self.connection = Some(TcpConnection::Connecting(stream));
            DriveOutcome::Idle
        }
    }

    /// The TLS handshake was polled.
    pub fn handshaking(&mut self, handshake: H, outcome: IntoTlsOutcome<C>) -> (r: DriveOutcome)
        ensures
            final(self).same_setup(old(self)),
            match outcome {
                IntoTlsOutcome::Finished(stream) => {
                    &&& r == DriveOutcome::Active
                    &&& final(self).state() == Some(TcpConnection::<R, I, C, H>::Connected(stream))
                },
                IntoTlsOutcome::Active => {
                    &&& r == DriveOutcome::Active
                    &&& final(self).state() == Some(TcpConnection::<R, I, C, H>::IntoTls(handshake))
                },
                IntoTlsOutcome::Idle => {
                    &&& r == DriveOutcome::Idle
                    &&& final(self).state() == Some(TcpConnection::<R, I, C, H>::IntoTls(handshake))
                },
            },
            Self::follows(TcpStep::Handshake(handshake), final(self).state(), Ok(r)),
    {
        match outcome {
            IntoTlsOutcome::Finished(stream) => {
                self.connection = Some(TcpConnection::Connected(stream));
                DriveOutcome::Active
            },
            IntoTlsOutcome::Active => {
                self.connection = Some(TcpConnection::IntoTls(handshake));
                DriveOutcome::Active
            },
            IntoTlsOutcome::Idle => {
                self.connection = Some(TcpConnection::IntoTls(handshake));
                DriveOutcome::Idle
            },
        }
    }

    /// Why bytes cannot be written or read, if they cannot. `resolving` is what is said of address resolution.
    pub open spec fn not_ready(&self, resolving: Seq<char>) -> Option<Seq<char>> {
        match self.state() {
            Some(TcpConnection::Connected(_)) => None,
            Some(TcpConnection::AddressResolution(_, _)) => Some(resolving),
            Some(TcpConnection::Initializing(_, _)) => Some("stream is initializing"@),
            Some(TcpConnection::Connecting(_)) => Some("stream is connecting"@),
            Some(TcpConnection::IntoTls(_)) => Some("stream is mid-handshake"@),
            None => Some("stream not connected"@),
        }
    }

    fn check_ready(&self, resolving: &str) -> (r: Result<(), Error>)
        ensures
            match self.not_ready(resolving@) {
                Some(text) => crate::error::fails(r, ErrorKind::NotConnected, text),
                None => r is Ok,
            },
    {
        match &self.connection {
            Some(TcpConnection::Connected(_)) => Ok(()),
            Some(TcpConnection::AddressResolution(_, _)) => Err(
                Error::new(ErrorKind::NotConnected, resolving),
            ),
            Some(TcpConnection::Initializing(_, _)) => Err(
                Error::new(ErrorKind::NotConnected, "stream is initializing"),
            ),
            Some(TcpConnection::Connecting(_)) => Err(
                Error::new(ErrorKind::NotConnected, "stream is connecting"),
            ),
            Some(TcpConnection::IntoTls(_)) => Err(
                Error::new(ErrorKind::NotConnected, "stream is mid-handshake"),
            ),
            None => Err(Error::new(ErrorKind::NotConnected, "stream not connected")),
        }
    }

    /// The stream to write to.
    fn connected_stream(&mut self) -> (r: &mut C)
        requires
            old(self).state() matches Some(TcpConnection::Connected(_)),
        ensures
            old(self).state() == Some(TcpConnection::<R, I, C, H>::Connected(*r)),
            final(self).state() == Some(TcpConnection::<R, I, C, H>::Connected(*final(r))),
            final(self).same_setup(old(self)),
    {
        match &mut self.connection {
            Some(TcpConnection::Connected(x)) => x,
            _ => vstd::pervasive::unreached(),
        }
    }

    /// The stream that `data` is to be written to, or nothing when there is nothing to write. What came of it is handed to
    /// [`TcpSession::wrote`].
    pub fn begin_publish(&mut self, data: &[u8]) -> (r: Result<Option<&mut C>, Error>)
        ensures
            final(self).same_setup(old(self)),
            match old(self).not_ready("stream is resolving addresses"@) {
                Some(text) => crate::error::fails(r, ErrorKind::NotConnected, text) && *final(self)
                    == *old(self),
                None => if data@.len() == 0 {
                    r matches Ok(x) && x is None && *final(self) == *old(self)
                } else {
                    &&& r matches Ok(Some(stream))
                    &&& old(self).state() == Some(TcpConnection::<R, I, C, H>::Connected(*stream))
                    &&& final(self).state() == Some(
                        TcpConnection::<R, I, C, H>::Connected(*final(stream)),
                    )
                },
            },
    {
        // driving is only used for establishing a connection, so it does not need to be done here
        self.check_ready("stream is resolving addresses")?;
        if data.len() == 0 {
            // nothing to write, nothing to do
            return Ok(None);
        }
        Ok(Some(self.connected_stream()))
    }

    /// It was tried to write `data` to the stream, and that many bytes of it were written.
    pub fn wrote<'a>(&mut self, data: &'a [u8], result: Result<usize, Error>) -> (r: Result<
        PublishOutcome<&'a [u8]>,
        Error,
    >)
        requires
            result matches Ok(n) ==> n <= data@.len(),
        ensures
            final(self).same_setup(old(self)),
            match result {
                Ok(n) => if n == 0 {
                    &&& crate::error::fails(
                        r,
                        ErrorKind::UnexpectedEof,
                        "stream underlying write returned 0 instead of WouldBlock"@,
                    )
                    &&& final(self).state() is None
                } else if n == data@.len() {
                    &&& r == Ok::<PublishOutcome<&'a [u8]>, Error>(PublishOutcome::Published)
                    &&& final(self).state() == old(self).state()
                } else {
                    &&& r matches Ok(PublishOutcome::Incomplete(rest)) && rest@ == data@.skip(n as int)
                    &&& final(self).state() == old(self).state()
                },
                Err(e) => if e.kind == ErrorKind::WouldBlock {
                    &&& final(self).state() == old(self).state()
                    &&& if data@.len() == 0 {
                        r == Ok::<PublishOutcome<&'a [u8]>, Error>(PublishOutcome::Published)
                    } else {
                        r matches Ok(PublishOutcome::Incomplete(rest)) && rest@ == data@
                    }
                } else {
                    &&& r == Err::<PublishOutcome<&'a [u8]>, Error>(e)
                    &&& final(self).state() is None
                },
            },
    {
        let wrote: usize = match result {
            Ok(n) => {
                if n == 0 {
                    // A return value of 0 typically means that the underlying object is no longer able to accept bytes
                    // and will likely not be able to in the future as well, or that the buffer provided is empty.
                    self.connection = None;
                    return Err(
                        Error::new(
                            ErrorKind::UnexpectedEof,
                            "stream underlying write returned 0 instead of WouldBlock",
                        ),
                    );
                }
                n
            },
            Err(err) => {
                if err.kind != ErrorKind::WouldBlock {
                    self.connection = None;
                    return Err(err);
                }
                0
            },
        };
        if wrote == data.len() {
            Ok(PublishOutcome::Published)
        } else {
            let rest = slice_subrange(data, wrote, data.len());
            assert(rest@ =~= data@.skip(wrote as int));
            Ok(PublishOutcome::Incomplete(rest))
        }
    }

    /// The stream that is to be flushed.
    pub fn begin_flush(&mut self) -> (r: Result<&mut C, Error>)
        ensures
            final(self).same_setup(old(self)),
            match old(self).not_ready("stream in address resolution"@) {
                Some(text) => crate::error::fails(r, ErrorKind::NotConnected, text) && *final(self)
                    == *old(self),
                None => {
                    &&& r matches Ok(stream)
                    &&& old(self).state() == Some(TcpConnection::<R, I, C, H>::Connected(*stream))
                    &&& final(self).state() == Some(
                        TcpConnection::<R, I, C, H>::Connected(*final(stream)),
                    )
                },
            },
    {
        self.check_ready("stream in address resolution")?;
        Ok(self.connected_stream())
    }

    /// The stream to read from, and the buffer to read into, once the session was driven. What came of it is handed to
    /// [`TcpSession::read`].
    pub fn begin_receive(&mut self) -> (r: Result<(&mut C, &mut Vec<u8>), Error>)
        ensures
            final(self).connector() == old(self).connector(),
            match old(self).not_ready("stream in address resolution"@) {
                Some(text) => crate::error::fails(r, ErrorKind::NotConnected, text) && *final(self)
                    == *old(self),
                None => {
                    &&& r matches Ok(target)
                    &&& old(self).state() == Some(TcpConnection::<R, I, C, H>::Connected(*target.0))
                    &&& final(self).state() == Some(
                        TcpConnection::<R, I, C, H>::Connected(*final(target.0)),
                    )
                    &&& target.1@ == old(self).buffer()
                    &&& final(self).buffer() == final(target.1)@
                },
            },
    {
        self.check_ready("stream in address resolution")?;
        match &mut self.connection {
            Some(TcpConnection::Connected(x)) => Ok((x, &mut self.read_buffer)),
            _ => vstd::pervasive::unreached(),
        }
    }

    /// It was tried to read from the stream, and that many bytes were read into the buffer.
    pub fn read<'a>(&'a mut self, result: Result<usize, Error>) -> (r: Result<
        ReceiveOutcome<&'a [u8]>,
        Error,
    >)
        requires
            result matches Ok(n) ==> n <= old(self).buffer().len(),
        ensures
            final(self).same_setup(old(self)),
            match result {
                Ok(n) => {
                    &&& final(self).state() == old(self).state()
                    &&& if n == 0 {
                        crate::error::fails(r, ErrorKind::UnexpectedEof, "stream is eof"@)
                    } else {
                        r matches Ok(ReceiveOutcome::Payload(bytes)) && bytes@ == old(
                            self,
                        ).buffer().take(n as int)
                    }
                },
                Err(e) => if e.kind == ErrorKind::WouldBlock {
                    &&& r == Ok::<ReceiveOutcome<&'a [u8]>, Error>(ReceiveOutcome::Idle)
                    &&& final(self).state() == old(self).state()
                } else {
                    &&& r == Err::<ReceiveOutcome<&'a [u8]>, Error>(e)
                    &&& final(self).state() is None
                },
            },
    {
        match result {
            Ok(n) => {
                if n == 0 {
                    // eof
                    Err(Error::new(ErrorKind::UnexpectedEof, "stream is eof"))
                } else {
                    let bytes = slice_subrange(self.read_buffer.as_slice(), 0, n);
                    assert(bytes@ =~= self.read_buffer@.take(n as int));
                    Ok(ReceiveOutcome::Payload(bytes))
                }
            },
            Err(err) => {
                if err.kind == ErrorKind::WouldBlock {
                    Ok(ReceiveOutcome::Idle)
                } else {
                    self.connection = None;
                    Err(err)
                }
            },
        }
    }
}

/// Bytes are written and read if and only if the session is established. While a TLS handshake is in progress it is not.
pub proof fn only_established_sessions_are_ready<T, R, I, C, H>(
    session: TcpSession<T, R, I, C, H>,
    resolving: Seq<char>,
)
    ensures
        session.not_ready(resolving) is None <==> session.in_status() == SessionStatus::Established,
        session.state() matches Some(TcpConnection::IntoTls(_)) ==> session.in_status()
            == SessionStatus::Establishing && session.not_ready(resolving) is Some,
{
}

/// A TLS handshake that was asked for before there was a stream is not skipped: when the session is driven it keeps the
/// domain to start the handshake for, is in the handshake, or is terminated, but is not established.
pub proof fn asked_handshake_is_not_skipped<T, R, I, C, H>(
    pre: TcpSession<T, R, I, C, H>,
    post: TcpSession<T, R, I, C, H>,
    r: Result<DriveOutcome, Error>,
)
    requires
        pre.pending_domain() is Some,
        pre.drives(&post, r),
    ensures
        post.in_status() != SessionStatus::Established,
        ({
            ||| post.pending_domain() == pre.pending_domain()
            ||| post.state() matches Some(TcpConnection::IntoTls(_))
            ||| post.in_status() == SessionStatus::Terminated
        }),
{
}

/// A drive moves the status only forward: a failed one terminates the session, an idle one keeps the status, and one that
/// succeeds leaves an establishing session establishing or established. Driving an established session does nothing, and
/// driving a terminated one fails.
pub proof fn drive_moves_status_forward<T, R, I, C, H>(
    pre: TcpSession<T, R, I, C, H>,
    post: TcpSession<T, R, I, C, H>,
    r: Result<DriveOutcome, Error>,
)
    requires
        pre.drives(&post, r),
    ensures
        r is Err ==> post.in_status() == SessionStatus::Terminated,
        r == Ok::<DriveOutcome, Error>(DriveOutcome::Idle) ==> post.in_status() == pre.in_status(),
        match pre.in_status() {
            SessionStatus::Establishing => r is Ok ==> post.in_status() == SessionStatus::Establishing
                || post.in_status() == SessionStatus::Established,
            SessionStatus::Established => r == Ok::<DriveOutcome, Error>(DriveOutcome::Idle)
                && post.in_status() == SessionStatus::Established,
            SessionStatus::Terminated => crate::error::fails(
                r,
                ErrorKind::NotConnected,
                "stream not connected"@,
            ),
        },
{
}

/// The attempts to connect to each of several addresses. All are tried, and the last that succeeded counts.
pub struct ConnectAttempts<I> {
    socket: Option<I>,
    err: Option<Error>,
}

impl<I> ConnectAttempts<I> {
    /// The socket of the last attempt that succeeded.
    pub closed spec fn last_socket(&self) -> Option<I> {
        self.socket
    }

    /// The error of the last attempt that failed.
    pub closed spec fn last_error(&self) -> Option<Error> {
        self.err
    }

    pub fn new() -> (r: Self)
        ensures
            r.last_socket() is None,
            r.last_error() is None,
    {
        Self { socket: None, err: None }
    }

    /// It was tried to connect to an address.
    pub fn attempted(&mut self, result: Result<I, Error>)
        ensures
            match result {
                Ok(socket) => final(self).last_socket() == Some(socket) && final(self).last_error()
                    == old(self).last_error(),
                Err(e) => final(self).last_error() == Some(e) && final(self).last_socket() == old(
                    self,
                ).last_socket(),
            },
    {
        match result {
            Ok(x) => self.socket = Some(x),
            Err(x) => self.err = Some(x),
        }
    }

    /// All addresses were tried.
    pub fn finish(self) -> (r: Result<I, Error>)
        ensures
            match self.last_socket() {
                Some(socket) => r == Ok::<I, Error>(socket),
                None => match self.last_error() {
                    Some(e) => r == Err::<I, Error>(e),
                    None => crate::error::fails(r, ErrorKind::Other, "could not connect to addr"@),
                },
            },
    {
        match self.socket {
            Some(x) => Ok(x),
            None => match self.err {
                Some(err) => Err(err),
                None => Err(Error::new(ErrorKind::Other, "could not connect to addr")),
            },
        }
    }
}

/// What a server's attempt to accept a session gave: nothing when there was no new session.
pub fn accepted<A>(result: Result<A, Error>) -> (r: Result<Option<A>, Error>)
    ensures
        match result {
            Ok(x) => r == Ok::<Option<A>, Error>(Some(x)),
            Err(e) => if e.kind == ErrorKind::WouldBlock {
                r == Ok::<Option<A>, Error>(None)
            } else {
                r == Err::<Option<A>, Error>(e)
            },
        },
{
    match result {
        Ok(x) => Ok(Some(x)),
        Err(err) => {
            if err.kind == ErrorKind::WouldBlock {
                Ok(None)
            } else {
                Err(err)
            }
        },
    }
}

/// A session is established when its stream is connected and there is no handshake, terminated when there is no connection,
/// and establishing otherwise.
pub proof fn status_follows_connection<T, R, I, C, H>(session: TcpSession<T, R, I, C, H>)
    ensures
        session.state() is None <==> session.in_status() == SessionStatus::Terminated,
        (session.state() matches Some(TcpConnection::Connected(_))) <==> session.in_status()
            == SessionStatus::Established,
{
}

/// Each state is driven by its own step, with what the state holds: addresses are resolved, then a socket is connected, and
/// then there is the TLS handshake, if one was asked for. An established session has nothing to do.
pub proof fn state_is_driven_by_its_step<T, R, I, C, H>(session: TcpSession<T, R, I, C, H>)
    ensures
        match session.step() {
            Some(TcpStep::Resolve(x, tls)) => session.state() == Some(
                TcpConnection::<R, I, C, H>::AddressResolution(x, tls),
            ),
            Some(TcpStep::Initialize(x, tls)) => session.state() == Some(
                TcpConnection::<R, I, C, H>::Initializing(x, tls),
            ),
            Some(TcpStep::Connect(x)) => session.state() == Some(TcpConnection::<R, I, C, H>::Connecting(x)),
            Some(TcpStep::Handshake(x)) => session.state() == Some(TcpConnection::<R, I, C, H>::IntoTls(x)),
            Some(TcpStep::Done(outcome)) => outcome == DriveOutcome::Idle && session.in_status()
                == SessionStatus::Established,
            None => session.in_status() == SessionStatus::Terminated,
        },
        session.pending_domain() matches Some(domain) ==> session.in_status() == SessionStatus::Establishing && (
        session.step() matches Some(step) && match step {
            TcpStep::Resolve(_, tls) => tls == Some(domain),
            TcpStep::Initialize(_, tls) => tls == Some(domain),
            _ => false,
        }),
{
}

/// Why bytes cannot be written or read is told for each state of a session that is not established.
pub proof fn session_that_is_not_ready_tells_why<T, R, I, C, H>(
    session: TcpSession<T, R, I, C, H>,
    resolving: Seq<char>,
)
    ensures
        (session.state() matches Some(TcpConnection::AddressResolution(_, _))) ==> session.not_ready(resolving) == Some(
            resolving,
        ),
        (session.state() matches Some(TcpConnection::Initializing(_, _))) ==> session.not_ready(resolving) == Some(
            "stream is initializing"@,
        ),
        (session.state() matches Some(TcpConnection::Connecting(_))) ==> session.not_ready(resolving) == Some(
            "stream is connecting"@,
        ),
        (session.state() matches Some(TcpConnection::IntoTls(_))) ==> session.not_ready(resolving) == Some(
            "stream is mid-handshake"@,
        ),
        session.state() is None ==> session.not_ready(resolving) == Some("stream not connected"@),
        (session.state() matches Some(TcpConnection::Connected(_))) ==> session.not_ready(resolving) is None,
{
}

/// Sessions of the same setup have the same read buffer and the same TLS connector.
pub proof fn same_setup_is_the_same<T, R, I, C, H>(
    session: TcpSession<T, R, I, C, H>,
    other: TcpSession<T, R, I, C, H>,
)
    requires
        session.same_setup(&other),
    ensures
        session.buffer() == other.buffer(),
        session.connector() == other.connector(),
{
}

} // verus!
