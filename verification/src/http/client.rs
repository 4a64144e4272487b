//! HTTP client sessions
use std::sync::Arc;

use vstd::prelude::*;
use vstd::string::*;

use crate::error::{Error, ErrorKind};
use crate::frame::FrameDuplex;
use crate::http::decimal::format_digits;
use crate::http::headers::{headers_get, headers_try_insert};
use crate::http::message::{HttpRequest, IntoBody, Request, Response, Scheme};
use crate::http::request::Http1RequestSerializer;
use crate::http::response::Http1ResponseDeserializer;
use crate::{
    DriveOutcome, Flush, Publish, PublishOutcome, Receive, ReceiveOutcome, Session, SessionStatus,
};

verus! {

/// Where a connection is opened to, and the domain to start a TLS handshake for, if there is to be one.
pub struct ConnectTarget {
    pub addr: String,
    pub domain: Option<String>,
}

impl ConnectTarget {
    /// Whether this is the target for that host, port and scheme.
    pub open spec fn leads_to(&self, host: Seq<char>, port: u16, scheme: Scheme) -> bool {
        &&& self.addr@ == host + ":"@ + crate::http::decimal::digits(port as nat)
        &&& if scheme == Scheme::Https {
            self.domain matches Some(domain) && domain@ == host
        } else {
            self.domain is None
        }
    }

    /// The target for a host, port and scheme.
    pub fn new(host: &str, port: u16, scheme: Scheme) -> (r: Self)
        ensures
            r.leads_to(host@, port, scheme),
    {
        let mut addr = host.to_owned();
        addr.append(":");
        addr.append(format_digits(port as usize).as_str());
        let domain = if scheme == Scheme::Https {
            Some(host.to_owned())
        } else {
            None
        };
        Self { addr, domain }
    }
}

/// Find where to connect to for a URI with that scheme, host and port.
pub fn connect_stream(scheme: Scheme, host: Option<&str>, port: Option<u16>) -> (r: Result<
    ConnectTarget,
    Error,
>)
    ensures
        match host {
            Some(host) => r matches Ok(target) && target.leads_to(
                host@,
                match port {
                    Some(port) => port,
                    None => scheme.port(),
                },
                scheme,
            ),
            None => crate::error::fails(r, ErrorKind::InvalidData, "missing host"@),
        },
{
    let host = match host {
        Some(x) => x,
        None => return Err(Error::new(ErrorKind::InvalidData, "missing host")),
    };
    let port: u16 = match port {
        Some(x) => x,
        None => scheme.default_port(),
    };
    Ok(ConnectTarget::new(host, port, scheme))
}

/// The scheme of a request with that scheme in its URI, if it is one of HTTP.
pub open spec fn scheme_of(scheme: Option<Seq<char>>) -> Option<Scheme> {
    match scheme {
        None => Some(Scheme::Http),
        Some(text) => if text == "http"@ {
            Some(Scheme::Http)
        } else if text == "https"@ {
            Some(Scheme::Https)
        } else {
            None
        },
    }
}

/// The scheme of a request with that scheme in its URI.
pub fn request_scheme(scheme: &Option<String>) -> (r: Result<Scheme, Error>)
    ensures
        match scheme_of(crate::http::message::text_view(*scheme)) {
            Some(x) => r == Ok::<Scheme, Error>(x),
            None => crate::error::fails(r, ErrorKind::InvalidData, "bad http uri scheme"@),
        },
{
    match scheme {
        None => Ok(Scheme::Http),
        Some(text) => if *text == "http".to_owned() {
            Ok(Scheme::Http)
        } else if *text == "https".to_owned() {
            Ok(Scheme::Https)
        } else {
            Err(Error::new(ErrorKind::InvalidData, "bad http uri scheme"))
        },
    }
}

/// A simple non-blocking HTTP 1.x client
///
/// It decides where a connection is opened to and what is sent first. Opening the connection is left to the caller, who
/// wraps it in a [`HttpClientSession`]. `T` is the TLS connector and `A` the address resolver to open connections with.
///
/// The returned targets have a domain for `https` URLs, for which a TLS handshake is to be started.
///
/// For now, this only supports HTTP 1.x.
pub struct HttpClient<T, A> {
    tls_connector: Option<Arc<T>>,
    addr_resolver: Option<Arc<A>>,
}

impl<T, A> HttpClient<T, A> {
    /// The TLS connector that was set.
    pub closed spec fn connector(&self) -> Option<Arc<T>> {
        self.tls_connector
    }

    /// The address resolver that was set.
    pub closed spec fn resolver(&self) -> Option<Arc<A>> {
        self.addr_resolver
    }

    /// Create a new HttpClient
    pub fn new() -> (r: Self)
        ensures
            r.connector() is None,
            r.resolver() is None,
    {
        Self { tls_connector: None, addr_resolver: None }
    }

    /// Set the address resolver to use to resolve DNS entries
    pub fn with_addr_resolver(self, addr_resolver: Arc<A>) -> (r: Self)
        ensures
            r.resolver() == Some(addr_resolver),
            r.connector() == self.connector(),
    {
        Self { tls_connector: self.tls_connector, addr_resolver: Some(addr_resolver) }
    }

    /// Set the TLS connector to use for a TLS handshakes
    pub fn with_tls_connector(self, tls_connector: Arc<T>) -> (r: Self)
        ensures
            r.connector() == Some(tls_connector),
            r.resolver() == self.resolver(),
    {
        Self { tls_connector: Some(tls_connector), addr_resolver: self.addr_resolver }
    }

    /// The TLS connector to use, if one was set.
    pub fn tls_connector(&self) -> (r: &Option<Arc<T>>)
        ensures
            *r == self.connector(),
    {
        &self.tls_connector
    }

    /// The address resolver to use, if one was set.
    pub fn addr_resolver(&self) -> (r: &Option<Arc<A>>)
        ensures
            *r == self.resolver(),
    {
        &self.addr_resolver
    }

    /// Find where to connect to for a new HTTP connection that is ready for a new request.
    pub fn connect(&self, host: &str, port: u16, scheme: Scheme) -> (r: ConnectTarget)
        ensures
            r.leads_to(host@, port, scheme),
    {
        ConnectTarget::new(host, port, scheme)
    }

    /// Find where to connect to for the given request, and make the request ready to be sent.
    pub fn request<I: IntoBody>(&self, request: Request<I>) -> (r: Result<
        (ConnectTarget, HttpRequest),
        Error,
    >)
        ensures
            match (scheme_of(request@.uri.scheme), request@.uri.host) {
                (None, _) => crate::error::fails(r, ErrorKind::InvalidData, "bad http uri scheme"@),
                (Some(_), None) => crate::error::fails(r, ErrorKind::InvalidData, "missing host"@),
                (Some(scheme), Some(host)) => {
                    &&& r matches Ok(x)
                    &&& x.0.leads_to(
                        host,
                        match request@.uri.port {
                            Some(port) => port,
                            None => scheme.port(),
                        },
                        scheme,
                    )
                    &&& request@.uri.port is None ==> x.0.addr@ == host + if request@.uri.scheme == Some(
                        "https"@,
                    ) {
                        ":443"@
                    } else {
                        ":80"@
                    }
                    &&& x.0.domain is Some <==> request@.uri.scheme == Some("https"@)
                    &&& x.1 matches HttpRequest::Request(y)
                    &&& y@ == request@
                },
            },
    {
        let scheme = request_scheme(&request.uri.scheme)?;
        let host = match &request.uri.host {
            Some(host) => Some(host.as_str()),
            None => None,
        };
        let target = connect_stream(scheme, host, request.uri.port)?;
        proof {
            schemes_of_http("http"@);
            target_has_port_of_scheme(target, request@.uri.host->0);
        }
        Ok((target, HttpRequest::from_request(request)))
    }
}

/// A [`Session`] for a connection that was opened for a [`HttpClient`].
///
/// This encapsulates a [`FrameDuplex<S, Http1ResponseDeserializer, Http1RequestSerializer>`] and allows a single
/// [`Request`] to be enqueued prior to a successful connection, supporting the [`HttpClient::request`] function.
pub struct HttpClientSession<S> {
    session: FrameDuplex<S, Http1ResponseDeserializer, Http1RequestSerializer>,
    pending_initial_request: Option<HttpRequest>,
}

impl<S> HttpClientSession<S> {
    /// The framed session.
    pub closed spec fn framed(&self) -> FrameDuplex<
        S,
        Http1ResponseDeserializer,
        Http1RequestSerializer,
    > {
        self.session
    }

    /// The request that waits for the connection to be established.
    pub closed spec fn waiting(&self) -> Option<HttpRequest> {
        self.pending_initial_request
    }
}

impl<S> HttpClientSession<S> where
    S: for<'a> Publish<PublishPayload<'a> = &'a [u8]> + for<'a> Receive<
        ReceivePayload<'a> = &'a [u8],
    > + 'static,
 {
    pub fn new(session: FrameDuplex<S, Http1ResponseDeserializer, Http1RequestSerializer>) -> (r: Self)
        requires
            session.wf(),
        ensures
            r.wf(),
            r.framed() == session,
            r.waiting() is None,
    {
        Self { session, pending_initial_request: None }
    }

    /// Enqueue a request that is sent as soon as the connection is established.
    pub fn with_request(
        session: FrameDuplex<S, Http1ResponseDeserializer, Http1RequestSerializer>,
        request: HttpRequest,
    ) -> (r: Self)
        requires
            session.wf(),
        ensures
            r.wf(),
            r.framed() == session,
            r.waiting() == Some(request),
    {
        Self { session, pending_initial_request: Some(request) }
    }

    /// Whether sending the request that waits may lead to `post` with the result `r`, when driving reported `o`.
    pub open spec fn sends_waiting(
        framed: &FrameDuplex<S, Http1ResponseDeserializer, Http1RequestSerializer>,
        request: HttpRequest,
        o: DriveOutcome,
        post: &Self,
        r: Result<DriveOutcome, Error>,
    ) -> bool {
        exists|p: Result<PublishOutcome<HttpRequest>, Error>| #[trigger]
            framed.publishes(request, &post.framed(), p) && match p {
                Err(e) => r == Err::<DriveOutcome, Error>(e) && post.waiting() is None,
                Ok(PublishOutcome::Published) => r == Ok::<DriveOutcome, Error>(DriveOutcome::Active)
                    && post.waiting() is None,
                Ok(PublishOutcome::Incomplete(rest)) => r == Ok::<DriveOutcome, Error>(o)
                    && post.waiting() == Some(rest),
            }
    }
}

impl<S> Session for HttpClientSession<S> where
    S: for<'a> Publish<PublishPayload<'a> = &'a [u8]> + for<'a> Receive<
        ReceivePayload<'a> = &'a [u8],
    > + 'static,
 {
    closed spec fn wf(&self) -> bool {
        self.session.wf()
    }

    open spec fn in_status(&self) -> SessionStatus {
        self.framed().in_status()
    }

    open spec fn closes(&self, post: &Self) -> bool {
        self.framed().closes(&post.framed()) && post.waiting() == self.waiting()
    }

    open spec fn drives(&self, post: &Self, r: Result<DriveOutcome, Error>) -> bool {
        exists|
            mid: FrameDuplex<S, Http1ResponseDeserializer, Http1RequestSerializer>,
            d: Result<DriveOutcome, Error>,
        | #[trigger]
            self.framed().drives(&mid, d) && match d {
                Err(e) => r == d && post.framed() == mid && post.waiting() == self.waiting(),
                Ok(o) => if mid.in_status() == SessionStatus::Established && self.waiting() is Some {
                    Self::sends_waiting(&mid, self.waiting()->0, o, post, r)
                } else {
                    r == d && post.framed() == mid && post.waiting() == self.waiting()
                },
            }
    }

    fn status(&self) -> SessionStatus {
        self.session.status()
    }

    fn close(&mut self) {
        self.session.close()
    }

    fn drive(&mut self) -> Result<DriveOutcome, Error> {
        let driven = self.session.drive();
        assert(old(self).framed().drives(&self.framed(), driven));
        let mut result = driven?;
        if self.session.status() == SessionStatus::Established {
            if let Some(request) = self.pending_initial_request.take() {
                let ghost mid = self.framed();
                let published = self.session.publish(request);
                assert(mid.publishes(request, &self.framed(), published));
                match published? {
                    PublishOutcome::Published => {
                        result = DriveOutcome::Active;
                    },
                    PublishOutcome::Incomplete(x) => {
                        self.pending_initial_request = Some(x);
                        assert(mid.publishes(request, &self.framed(), published));
                    },
                }
            }
        }
        Ok(result)
    }
}

impl<S> Receive for HttpClientSession<S> where
    S: for<'a> Publish<PublishPayload<'a> = &'a [u8]> + for<'a> Receive<
        ReceivePayload<'a> = &'a [u8],
    > + 'static,
 {
    type ReceivePayload<'a> = Response;

    open spec fn receives<'a>(
        &self,
        post: &Self,
        r: Result<ReceiveOutcome<Self::ReceivePayload<'a>>, Error>,
    ) -> bool {
        exists|mid: Self, d: Result<DriveOutcome, Error>| #[trigger]
            self.drives(&mid, d) && match d {
                Err(e) => r == Err::<ReceiveOutcome<Response>, Error>(e) && *post == mid,
                Ok(_) => if mid.waiting() is None && mid.in_status() == SessionStatus::Established {
                    mid.framed().receives(&post.framed(), r) && post.waiting() is None
                } else {
                    r == Ok::<ReceiveOutcome<Response>, Error>(ReceiveOutcome::Idle) && *post == mid
                },
            }
    }

    fn receive<'a>(&'a mut self) -> Result<ReceiveOutcome<Self::ReceivePayload<'a>>, Error> {
        self.drive()?;
        if self.pending_initial_request.is_none() && self.status() == SessionStatus::Established {
            // make the request/response model more straightforward by not requiring checks to `status()` before calling `receive`.
            self.session.receive()
        } else {
            Ok(ReceiveOutcome::Idle)
        }
    }
}

impl<S> Publish for HttpClientSession<S> where
    S: for<'a> Publish<PublishPayload<'a> = &'a [u8]> + for<'a> Receive<
        ReceivePayload<'a> = &'a [u8],
    > + 'static,
 {
    type PublishPayload<'a> = HttpRequest;

    open spec fn publishes<'a>(
        &self,
        data: Self::PublishPayload<'a>,
        post: &Self,
        r: Result<PublishOutcome<Self::PublishPayload<'a>>, Error>,
    ) -> bool {
        self.framed().publishes(data, &post.framed(), r) && post.waiting() == self.waiting()
    }

    fn publish<'a>(&mut self, data: Self::PublishPayload<'a>) -> Result<
        PublishOutcome<Self::PublishPayload<'a>>,
        Error,
    > {
        self.session.publish(data)
    }
}

impl<S> Flush for HttpClientSession<S> where
    S: for<'a> Publish<PublishPayload<'a> = &'a [u8]> + for<'a> Receive<
        ReceivePayload<'a> = &'a [u8],
    > + Flush + 'static,
 {
    open spec fn flushes(&self, post: &Self, r: Result<(), Error>) -> bool {
        self.framed().flushes(&post.framed(), r) && post.waiting() == self.waiting()
    }

    fn flush(&mut self) -> Result<(), Error> {
        self.session.flush()
    }
}

/// Encapsulates a [`HttpClientSession`], enabling multiple requests to be queued and used on a single session.
///
/// It ensures only one request can be in flight at a time, and will buffer the request until the connection is
/// established. This utilizes HTTP 1.x keep-alive headers to attempt to re-use the same connection for multiple requests.
///
/// Requests are started by calling [`PersistentHttpConnection::request`], which will return a [`PendingHttpResponse`].
/// These pending http response will coordinate with one another to send requests and drive responses in the order the
/// function was called.
///
/// An HTTP server may elect to close an http session at any time.
/// When this occurs, a new [`PersistentHttpConnection`] must be created from the original [`HttpClient`].
pub struct PersistentHttpConnection<S> {
    session: HttpClientSession<S>,
    active_request_id: u64,
    next_request_id: u64,
    closed: bool,
}

impl<S> PersistentHttpConnection<S> {
    /// The session that all requests use.
    pub closed spec fn inner(&self) -> HttpClientSession<S> {
        self.session
    }

    /// The request that may use the session.
    pub closed spec fn active_id(&self) -> nat {
        self.active_request_id as nat
    }

    /// The id of the next request.
    pub closed spec fn next_id(&self) -> nat {
        self.next_request_id as nat
    }

    /// Whether a response announced that the server closes the connection.
    pub closed spec fn is_closed(&self) -> bool {
        self.closed
    }
}

/// Whether a response announces that the server closes the connection.
pub open spec fn closes_connection(response: crate::http::message::ResponseView) -> bool {
    crate::http::headers::first_value(
        response.headers,
        crate::http::headers::lowercase(vstd::utf8::encode_utf8("connection"@)),
    ) == Some(vstd::utf8::encode_utf8("close"@))
}

/// The bytes of the name of the header that tells what becomes of a connection.
proof fn lemma_connection_is_header_name()
    ensures
        crate::http::headers::is_header_name(vstd::utf8::encode_utf8("connection"@)),
{
    reveal_strlit("connection");
    let name = "connection"@;
    let bytes = vstd::utf8::encode_utf8(name);
    vstd::utf8::is_ascii_chars_encode_utf8(name);
    assert(bytes.len() == 10);
    assert forall|i: int| 0 <= i < bytes.len() implies crate::http::headers::is_token(
        #[trigger] bytes[i],
    ) by {
        assert(bytes[i] == name[i] as u8);
        assert(i == 0 || i == 1 || i == 2 || i == 3 || i == 4 || i == 5 || i == 6 || i == 7 || i == 8
            || i == 9);
    }
}

/// The bytes of the value that asks for a connection to be kept.
proof fn lemma_keep_alive_is_header_value()
    ensures
        crate::http::headers::is_header_value(vstd::utf8::encode_utf8("keep-alive"@)),
{
    reveal_strlit("keep-alive");
    let value = "keep-alive"@;
    let bytes = vstd::utf8::encode_utf8(value);
    vstd::utf8::is_ascii_chars_encode_utf8(value);
    assert forall|i: int| 0 <= i < bytes.len() implies (#[trigger] bytes[i] >= 32 && bytes[i] != 127)
        || bytes[i] == 9 by {
        assert(bytes[i] == value[i] as u8);
        assert(i == 0 || i == 1 || i == 2 || i == 3 || i == 4 || i == 5 || i == 6 || i == 7 || i == 8
            || i == 9);
    }
}

fn is_close(value: &Vec<u8>) -> (r: bool)
    ensures
        r == (value@ == vstd::utf8::encode_utf8("close"@)),
{
    let close = "close".as_bytes();
    if value.len() != close.len() {
        return false;
    }
    let mut i: usize = 0;
    while i < close.len()
        invariant
            i <= close@.len() == value@.len(),
            close@ == vstd::utf8::encode_utf8("close"@),
            forall|k: int| 0 <= k < i ==> value@[k] == close@[k],
        decreases close@.len() - i,
    {
        if value[i] != close[i] {
            return false;
        }
        i = i + 1;
    }
    assert(value@ =~= close@);
    true
}

/// The request with the header that asks for the connection to be kept.
pub open spec fn kept_alive(request: crate::http::message::RequestView) -> crate::http::message::RequestView {
    crate::http::message::RequestView {
        headers: crate::http::headers::with_value(
            request.headers,
            crate::http::headers::lowercase(vstd::utf8::encode_utf8("connection"@)),
            vstd::utf8::encode_utf8("keep-alive"@),
        ),
        ..request
    }
}

impl<S> PersistentHttpConnection<S> where
    S: for<'a> Publish<PublishPayload<'a> = &'a [u8]> + for<'a> Receive<
        ReceivePayload<'a> = &'a [u8],
    > + 'static,
 {
    /// Use the session for any number of requests, one after the other.
    pub fn new(session: HttpClientSession<S>) -> (r: Self)
        requires
            session.wf(),
        ensures
            r.wf(),
            r.inner() == session,
            r.active_id() == 0,
            r.next_id() == 0,
            !r.is_closed(),
    {
        Self { session, active_request_id: 0, next_request_id: 0, closed: false }
    }

    /// Whether there is an id for another request.
    pub fn has_request_id(&self) -> (r: bool)
        ensures
            r == (self.next_id() < u64::MAX),
    {
        self.next_request_id < u64::MAX
    }

    /// Queue a request behind all requests that were made before.
    ///
    /// It is refused when a response announced that the server closes the connection.
    pub fn request<I: IntoBody>(&mut self, request: Request<I>) -> (r: Result<
        PendingHttpResponse,
        Error,
    >)
        requires
            old(self).wf(),
            old(self).next_id() < u64::MAX,
        ensures
            final(self).wf(),
            final(self).inner() == old(self).inner(),
            final(self).active_id() == old(self).active_id(),
            final(self).is_closed() == old(self).is_closed(),
            old(self).is_closed() ==> crate::error::fails(
                r,
                ErrorKind::ConnectionRefused,
                "connection closed by server"@,
            ),
            match r {
                Ok(pending) => {
                    &&& pending.id() == old(self).next_id()
                    &&& pending.id() >= old(self).active_id()
                    &&& pending.unsent() matches Some(HttpRequest::Request(x))
                    &&& x@ == kept_alive(request@)
                    // the request asks for the connection to be kept, and is otherwise as it was made
                    &&& crate::http::headers::first_value(
                        x@.headers,
                        vstd::utf8::encode_utf8("connection"@),
                    ) == Some(vstd::utf8::encode_utf8("keep-alive"@))
                    &&& forall|name: Seq<u8>|
                        name != vstd::utf8::encode_utf8("connection"@) ==> #[trigger] crate::http::headers::first_value(
                            x@.headers,
                            name,
                        ) == crate::http::headers::first_value(request@.headers, name)
                    &&& x@.method == request@.method
                    &&& x@.uri == request@.uri
                    &&& x@.version == request@.version
                    &&& x@.body == request@.body
                    &&& final(self).next_id() == old(self).next_id() + 1
                },
                Err(e) => {
                    &&& final(self).next_id() == old(self).next_id()
                    &&& !old(self).is_closed() ==> request@.headers.len()
                        >= crate::http::headers::header_limit() && crate::error::fails(
                        r,
                        ErrorKind::InvalidInput,
                        "request has too many headers"@,
                    )
                },
            },
    {
        // check that the connection was not set to close by the server on the last request
        if self.closed {
            return Err(Error::new(ErrorKind::ConnectionRefused, "connection closed by server"));
        }
        // add the keep-alive header to the request
        let mut request = request;
        proof {
            kept_alive_asks_to_keep_connection(request@);
            lemma_connection_is_header_name();
            lemma_keep_alive_is_header_value();
        }
        if !headers_try_insert(
            &mut request.headers,
            "connection".as_bytes(),
            "keep-alive".as_bytes(),
        ) {
            return Err(Error::new(ErrorKind::InvalidInput, "request has too many headers"));
        }
        // assign the next available request id
        let request_id: u64 = self.next_request_id;
        self.next_request_id = self.next_request_id + 1;
        // return the pending http response
        Ok(PendingHttpResponse { pending_request: Some(HttpRequest::from_request(request)), request_id })
    }

    /// Let the next request use the session, and remember whether the response announces that the server closes the
    /// connection.
    pub fn finish_request(&mut self, response: &Response)
        requires
            old(self).wf(),
            old(self).active_id() < old(self).next_id(),
        ensures
            final(self).wf(),
            final(self).inner() == old(self).inner(),
            final(self).next_id() == old(self).next_id(),
            final(self).active_id() == old(self).active_id() + 1,
            final(self).is_closed() == (old(self).is_closed() || closes_connection(response@)),
    {
        proof {
            lemma_connection_is_header_name();
        }
        self.active_request_id = self.active_request_id + 1;
        // this will fail the next request early without needing to attempt and fail when interactive with the wire
        if let Some(value) = headers_get(&response.headers, "connection") {
            if is_close(&value) {
                self.closed = true;
            }
        }
    }
}

impl<S> Session for PersistentHttpConnection<S> where
    S: for<'a> Publish<PublishPayload<'a> = &'a [u8]> + for<'a> Receive<
        ReceivePayload<'a> = &'a [u8],
    > + 'static,
 {
    closed spec fn wf(&self) -> bool {
        self.session.wf() && self.active_request_id <= self.next_request_id
    }

    open spec fn in_status(&self) -> SessionStatus {
        self.inner().in_status()
    }

    open spec fn closes(&self, post: &Self) -> bool {
        &&& self.inner().closes(&post.inner())
        &&& post.active_id() == self.active_id()
        &&& post.next_id() == self.next_id()
        &&& post.is_closed() == self.is_closed()
    }

    open spec fn drives(&self, post: &Self, r: Result<DriveOutcome, Error>) -> bool {
        &&& self.inner().drives(&post.inner(), r)
        &&& post.active_id() == self.active_id()
        &&& post.next_id() == self.next_id()
        &&& post.is_closed() == self.is_closed()
    }

    fn status(&self) -> SessionStatus {
        self.session.status()
    }

    fn close(&mut self) {
        self.session.close()
    }

    fn drive(&mut self) -> Result<DriveOutcome, Error> {
        self.session.drive()
    }
}

/// A pending or active [`HttpRequest`] for a [`PersistentHttpConnection`], which can be polled to completion.
///
/// Every operation takes the connection that the request was made on.
pub struct PendingHttpResponse {
    pending_request: Option<HttpRequest>,
    request_id: u64,
}

impl PendingHttpResponse {
    /// The place of the request among all requests of the connection.
    pub closed spec fn id(&self) -> nat {
        self.request_id as nat
    }

    /// The request, as long as it has not been sent.
    pub closed spec fn unsent(&self) -> Option<HttpRequest> {
        self.pending_request
    }

    /// Whether receiving may lead to `post` and `post_connection` with the result `r`. A request whose turn it is not does
    /// nothing, nor does one that was not sent while the connection is being established. Otherwise the request is sent if
    /// it was not, and else the session is asked for the response.
    pub open spec fn receives_response<S>(
        &self,
        connection: &PersistentHttpConnection<S>,
        post: &Self,
        post_connection: &PersistentHttpConnection<S>,
        r: Result<ReceiveOutcome<Response>, Error>,
    ) -> bool where
        S: for<'a> Publish<PublishPayload<'a> = &'a [u8]> + for<'a> Receive<
            ReceivePayload<'a> = &'a [u8],
        > + 'static,
     {
        &&& post.id() == self.id()
        &&& post_connection.next_id() == connection.next_id()
        &&& if connection.active_id() != self.id() || (self.unsent() is Some && connection.in_status()
            == SessionStatus::Establishing) {
            &&& r == Ok::<ReceiveOutcome<Response>, Error>(ReceiveOutcome::Idle)
            &&& *post == *self
            &&& *post_connection == *connection
        } else if self.unsent() is Some {
            &&& post_connection.active_id() == connection.active_id()
            &&& post_connection.is_closed() == connection.is_closed()
            &&& exists|p: Result<PublishOutcome<HttpRequest>, Error>| #[trigger]
                connection.inner().publishes(self.unsent()->0, &post_connection.inner(), p) && match p {
                    Err(e) => r == Err::<ReceiveOutcome<Response>, Error>(e) && post.unsent() is None,
                    Ok(PublishOutcome::Incomplete(rest)) => r == Ok::<ReceiveOutcome<Response>, Error>(
                        ReceiveOutcome::Idle,
                    ) && post.unsent() == Some(rest),
                    Ok(PublishOutcome::Published) => r == Ok::<ReceiveOutcome<Response>, Error>(
                        ReceiveOutcome::Buffered,
                    ) && post.unsent() is None,
                }
        } else {
            &&& *post == *self
            &&& connection.inner().receives(&post_connection.inner(), r)
            &&& match r {
                Ok(ReceiveOutcome::Payload(response)) => {
                    &&& post_connection.active_id() == connection.active_id() + 1
                    &&& post_connection.is_closed() == (connection.is_closed() || closes_connection(
                        response@,
                    ))
                },
                _ => {
                    &&& post_connection.active_id() == connection.active_id()
                    &&& post_connection.is_closed() == connection.is_closed()
                },
            }
        }
    }

    /// The status of the connection.
    pub fn status<S>(&self, connection: &PersistentHttpConnection<S>) -> (r: SessionStatus) where
        S: for<'a> Publish<PublishPayload<'a> = &'a [u8]> + for<'a> Receive<
            ReceivePayload<'a> = &'a [u8],
        > + 'static,

        ensures
            r == connection.in_status(),
    {
        connection.status()
    }

    /// Drive the connection if it is the turn of this request.
    pub fn drive<S>(&mut self, connection: &mut PersistentHttpConnection<S>) -> (r: Result<
        DriveOutcome,
        Error,
    >) where
        S: for<'a> Publish<PublishPayload<'a> = &'a [u8]> + for<'a> Receive<
            ReceivePayload<'a> = &'a [u8],
        > + 'static,

        requires
            old(connection).wf(),
        ensures
            final(connection).wf(),
            *final(self) == *old(self),
            if old(connection).active_id() == old(self).id() {
                old(connection).drives(final(connection), r)
            } else {
                r == Ok::<DriveOutcome, Error>(DriveOutcome::Idle) && *final(connection) == *old(
                    connection,
                )
            },
    {
        if connection.active_request_id == self.request_id {
            // is the active request, drive the session
            connection.drive()
        } else {
            // not the active request, do not drive the session
            Ok(DriveOutcome::Idle)
        }
    }

    /// Send the request or receive the response if it is the turn of this request.
    pub fn receive<S>(&mut self, connection: &mut PersistentHttpConnection<S>) -> (r: Result<
        ReceiveOutcome<Response>,
        Error,
    >) where
        S: for<'a> Publish<PublishPayload<'a> = &'a [u8]> + for<'a> Receive<
            ReceivePayload<'a> = &'a [u8],
        > + 'static,

        requires
            old(connection).wf(),
            old(self).id() < old(connection).next_id(),
        ensures
            final(connection).wf(),
            old(self).receives_response(old(connection), final(self), final(connection), r),
    {
        // first check if the active request is this request, if not, return idle
        if connection.active_request_id != self.request_id {
            return Ok(ReceiveOutcome::Idle);
        }
        // the request is buffered until the connection is established
        if self.pending_request.is_some() && connection.status() == SessionStatus::Establishing {
            return Ok(ReceiveOutcome::Idle);
        }
        // then try to send the request if necessary
        if let Some(request) = self.pending_request.take() {
            let published = connection.session.publish(request);
            assert(old(connection).inner().publishes(request, &connection.inner(), published));
            match published? {
                PublishOutcome::Incomplete(request) => {
                    self.pending_request = Some(request);
                    return Ok(ReceiveOutcome::Idle);
                },
                PublishOutcome::Published => {
                    return Ok(ReceiveOutcome::Buffered);
                },
            }
        }
        // otherwise, attempt to receive the response
        let received = connection.session.receive();
        assert(old(connection).inner().receives(&connection.inner(), received));
        match received? {
            ReceiveOutcome::Payload(response) => {
                // done! advance the active request id, return the response
                connection.finish_request(&response);
                Ok(ReceiveOutcome::Payload(response))
            },
            ReceiveOutcome::Buffered => Ok(ReceiveOutcome::Buffered),
            ReceiveOutcome::Idle => Ok(ReceiveOutcome::Idle),
        }
    }
}

/// Only one request at a time uses the connection: when it is not the turn of a request, receiving and driving change
/// nothing, so that requests are sent and responses received in the order in which the requests were made.
pub proof fn waiting_request_changes_nothing<S>(
    pending: PendingHttpResponse,
    connection: PersistentHttpConnection<S>,
    post: PendingHttpResponse,
    post_connection: PersistentHttpConnection<S>,
    r: Result<ReceiveOutcome<Response>, Error>,
) where
    S: for<'a> Publish<PublishPayload<'a> = &'a [u8]> + for<'a> Receive<
        ReceivePayload<'a> = &'a [u8],
    > + 'static,

    requires
        pending.id() != connection.active_id(),
        pending.receives_response(&connection, &post, &post_connection, r),
    ensures
        r == Ok::<ReceiveOutcome<Response>, Error>(ReceiveOutcome::Idle),
        post == pending,
        post_connection == connection,
{
}

/// The turn passes to the next request when a request has received its response, and at no other time.
pub proof fn turn_passes_with_response<S>(
    pending: PendingHttpResponse,
    connection: PersistentHttpConnection<S>,
    post: PendingHttpResponse,
    post_connection: PersistentHttpConnection<S>,
    r: Result<ReceiveOutcome<Response>, Error>,
) where
    S: for<'a> Publish<PublishPayload<'a> = &'a [u8]> + for<'a> Receive<
        ReceivePayload<'a> = &'a [u8],
    > + 'static,

    requires
        pending.receives_response(&connection, &post, &post_connection, r),
    ensures
        post_connection.active_id() == connection.active_id() + if r matches Ok(x) && x is Payload {
            1nat
        } else {
            0nat
        },
{
}

/// A request that was not sent stays as it is while the connection is being established, and so does the connection.
pub proof fn request_is_kept_until_established<S>(
    pending: PendingHttpResponse,
    connection: PersistentHttpConnection<S>,
    post: PendingHttpResponse,
    post_connection: PersistentHttpConnection<S>,
    r: Result<ReceiveOutcome<Response>, Error>,
) where
    S: for<'a> Publish<PublishPayload<'a> = &'a [u8]> + for<'a> Receive<
        ReceivePayload<'a> = &'a [u8],
    > + 'static,

    requires
        pending.unsent() is Some,
        connection.in_status() == SessionStatus::Establishing,
        pending.receives_response(&connection, &post, &post_connection, r),
    ensures
        r == Ok::<ReceiveOutcome<Response>, Error>(ReceiveOutcome::Idle),
        post == pending,
        post_connection == connection,
{
}

/// A call of [`PendingHttpResponse::receive`]: the request before and after it, and its result.
pub struct Poll {
    pub before: PendingHttpResponse,
    pub after: PendingHttpResponse,
    pub result: Result<ReceiveOutcome<Response>, Error>,
}

impl Poll {
    /// Whether the request with that id received its response.
    pub open spec fn answers(&self, id: nat) -> bool {
        self.before.id() == id && (self.result matches Ok(outcome) && outcome is Payload)
    }
}

/// Whether each of `calls` may lead from one of `connections` to the next. A call is that of a request to receive, or any
/// other one, which keeps the turn: making a request, driving or closing the connection.
pub open spec fn is_history<S>(connections: Seq<PersistentHttpConnection<S>>, calls: Seq<Option<Poll>>) -> bool where
    S: for<'a> Publish<PublishPayload<'a> = &'a [u8]> + for<'a> Receive<
        ReceivePayload<'a> = &'a [u8],
    > + 'static,
 {
    &&& connections.len() == calls.len() + 1
    &&& forall|i: int|
        0 <= i < calls.len() ==> match #[trigger] calls[i] {
            Some(poll) => poll.before.receives_response(
                &connections[i],
                &poll.after,
                &connections[i + 1],
                poll.result,
            ),
            None => connections[i + 1].active_id() == connections[i].active_id(),
        }
}

/// One request at most is in flight, and responses come in the order of the requests: until a request has received its
/// response, receiving of a request that was made later gives nothing, sends nothing, and changes neither that request nor
/// the connection, whatever was called in between.
pub proof fn later_request_waits_for_response<S>(
    connections: Seq<PersistentHttpConnection<S>>,
    calls: Seq<Option<Poll>>,
    id: nat,
    n: int,
) where
    S: for<'a> Publish<PublishPayload<'a> = &'a [u8]> + for<'a> Receive<
        ReceivePayload<'a> = &'a [u8],
    > + 'static,

    requires
        is_history(connections, calls),
        connections[0].active_id() <= id,
        0 <= n < calls.len(),
        forall|i: int| 0 <= i < n ==> !(#[trigger] calls[i] matches Some(poll) && poll.answers(id)),
        calls[n] matches Some(poll) && poll.before.id() > id,
    ensures
        calls[n] matches Some(poll) && poll.result == Ok::<ReceiveOutcome<Response>, Error>(
            ReceiveOutcome::Idle,
        ) && poll.after == poll.before,
        connections[n + 1] == connections[n],
{
    lemma_turn_stays(connections, calls, id, n);
    assert(calls[n] is Some);
}

/// The turn does not pass a request that has not received its response.
proof fn lemma_turn_stays<S>(
    connections: Seq<PersistentHttpConnection<S>>,
    calls: Seq<Option<Poll>>,
    id: nat,
    n: int,
) where
    S: for<'a> Publish<PublishPayload<'a> = &'a [u8]> + for<'a> Receive<
        ReceivePayload<'a> = &'a [u8],
    > + 'static,

    requires
        is_history(connections, calls),
        connections[0].active_id() <= id,
        0 <= n <= calls.len(),
        forall|i: int| 0 <= i < n ==> !(#[trigger] calls[i] matches Some(poll) && poll.answers(id)),
    ensures
        connections[n].active_id() <= id,
    decreases n,
{
    if n > 0 {
        lemma_turn_stays(connections, calls, id, n - 1);
        match calls[n - 1] {
            Some(poll) => {
                turn_passes_with_response(
                    poll.before,
                    connections[n - 1],
                    poll.after,
                    connections[n],
                    poll.result,
                );
            },
            None => {},
        }
    }
}

/// The decimal digits of the ports of HTTP.
proof fn lemma_port_digits()
    ensures
        crate::http::decimal::digits(80) == "80"@,
        crate::http::decimal::digits(443) == "443"@,
{
    reveal_strlit("80");
    reveal_strlit("443");
    reveal_with_fuel(crate::http::decimal::decimal, 4);
    assert(crate::http::decimal::digits(80) =~= "80"@);
    assert(crate::http::decimal::digits(443) =~= "443"@);
}

/// The target of a host without a port is the host with port 80, without TLS; over TLS it is the host with port 443, and the
/// handshake is for the host.
pub proof fn target_has_port_of_scheme(target: ConnectTarget, host: Seq<char>)
    ensures
        target.leads_to(host, Scheme::Http.port(), Scheme::Http) <==> target.addr@ == host + ":80"@
            && target.domain is None,
        target.leads_to(host, Scheme::Https.port(), Scheme::Https) <==> target.addr@ == host + ":443"@ && (
        target.domain matches Some(domain) && domain@ == host),
{
    lemma_port_digits();
    reveal_strlit(":");
    reveal_strlit("80");
    reveal_strlit("443");
    reveal_strlit(":80");
    reveal_strlit(":443");
    assert(host + ":"@ + "80"@ =~= host + ":80"@);
    assert(host + ":"@ + "443"@ =~= host + ":443"@);
}

/// A target has the host and the port that were asked for, with a colon between them. There is a TLS handshake, which is for
/// the host, if and only if the scheme is that of HTTP over TLS.
pub proof fn target_is_host_and_port(target: ConnectTarget, host: Seq<char>, port: u16, scheme: Scheme)
    requires
        target.leads_to(host, port, scheme),
    ensures
        target.addr@.take(host.len() as int) == host,
        target.addr@[host.len() as int] == ':',
        target.addr@.skip(host.len() as int + 1) == crate::http::decimal::digits(port as nat),
        target.domain is Some <==> scheme == Scheme::Https,
        target.domain matches Some(domain) ==> domain@ == host,
{
    reveal_strlit(":");
    assert(target.addr@.take(host.len() as int) =~= host);
    assert(target.addr@.skip(host.len() as int + 1) =~= crate::http::decimal::digits(port as nat));
}

/// A URI with scheme `http`, or with none, is for HTTP, one with `https` is for HTTP over TLS, and any other scheme is for
/// neither.
pub proof fn schemes_of_http(scheme: Seq<char>)
    ensures
        scheme_of(None) == Some(Scheme::Http),
        scheme_of(Some("http"@)) == Some(Scheme::Http),
        scheme_of(Some("https"@)) == Some(Scheme::Https),
        scheme != "http"@ && scheme != "https"@ ==> scheme_of(Some(scheme)) is None,
{
    reveal_strlit("http");
    reveal_strlit("https");
    assert("http"@.len() != "https"@.len());
}

/// The name of the header that tells what becomes of a connection has no upper case letters.
proof fn lemma_connection_is_lowercase()
    ensures
        crate::http::headers::lowercase(vstd::utf8::encode_utf8("connection"@)) == vstd::utf8::encode_utf8(
            "connection"@,
        ),
{
    reveal_strlit("connection");
    let name = "connection"@;
    let bytes = vstd::utf8::encode_utf8(name);
    vstd::utf8::is_ascii_chars_encode_utf8(name);
    assert forall|i: int| 0 <= i < bytes.len() implies crate::http::headers::lower(#[trigger] bytes[i]) == bytes[i] by {
        assert(bytes[i] == name[i] as u8);
        assert(i == 0 || i == 1 || i == 2 || i == 3 || i == 4 || i == 5 || i == 6 || i == 7 || i == 8
            || i == 9);
    }
    assert(crate::http::headers::lowercase(bytes) =~= bytes);
}

/// A request of a persistent connection has the header `connection` with the value `keep-alive`, and once only. All its
/// other headers, and all its other parts, are those that it was made with.
pub proof fn kept_alive_asks_to_keep_connection(request: crate::http::message::RequestView)
    ensures
        crate::http::headers::first_value(
            kept_alive(request).headers,
            vstd::utf8::encode_utf8("connection"@),
        ) == Some(vstd::utf8::encode_utf8("keep-alive"@)),
        forall|name: Seq<u8>|
            name != vstd::utf8::encode_utf8("connection"@) ==> #[trigger] crate::http::headers::first_value(
                kept_alive(request).headers,
                name,
            ) == crate::http::headers::first_value(request.headers, name),
        kept_alive(request).headers.filter(
            |e: (Seq<u8>, Seq<u8>)| e.0 != vstd::utf8::encode_utf8("connection"@),
        ) == request.headers.filter(|e: (Seq<u8>, Seq<u8>)| e.0 != vstd::utf8::encode_utf8("connection"@)),
        kept_alive(request).method == request.method,
        kept_alive(request).uri == request.uri,
        kept_alive(request).version == request.version,
        kept_alive(request).body == request.body,
{
    lemma_connection_is_lowercase();
    let name = vstd::utf8::encode_utf8("connection"@);
    let value = vstd::utf8::encode_utf8("keep-alive"@);
    crate::http::headers::inserted_value_is_found(request.headers, name, value);
    crate::http::headers::inserting_leaves_one_entry(request.headers, name, value);
    assert forall|other: Seq<u8>| other != name implies #[trigger] crate::http::headers::first_value(
        kept_alive(request).headers,
        other,
    ) == crate::http::headers::first_value(request.headers, other) by {
        crate::http::headers::inserting_keeps_other_names(request.headers, name, value, other);
    }
}

/// A server announces that it closes a connection with the header `connection` and the value `close`, and with no other.
pub proof fn connection_is_closed_by_header(response: crate::http::message::ResponseView)
    ensures
        closes_connection(response) <==> crate::http::headers::first_value(
            response.headers,
            vstd::utf8::encode_utf8("connection"@),
        ) == Some(vstd::utf8::encode_utf8("close"@)),
{
    lemma_connection_is_lowercase();
}

/// The bytes of a request that is yet to be sent.
pub open spec fn waiting_bytes(request: Option<HttpRequest>) -> Seq<u8> {
    match request {
        Some(HttpRequest::Request(x)) => crate::http::request::request_bytes(x@, x@.uri.host->0),
        Some(HttpRequest::Serialized(bytes)) => bytes@,
        None => Seq::empty(),
    }
}

/// What a drive does that does not fail: the request that waits is sent behind all other bytes, as a whole, once, and only
/// when the connection is established; otherwise it goes on waiting. No byte is lost, added or sent in another order.
pub proof fn waiting_request_is_sent_once<S>(
    pre: HttpClientSession<S>,
    post: HttpClientSession<S>,
    r: Result<DriveOutcome, Error>,
    sent: spec_fn(S) -> Seq<u8>,
) where
    S: for<'a> Publish<PublishPayload<'a> = &'a [u8]> + for<'a> Receive<
        ReceivePayload<'a> = &'a [u8],
    > + 'static,

    requires
        pre.wf(),
        crate::frame::counts_sent(sent),
        pre.drives(&post, r),
        r is Ok,
    ensures
        sent(post.framed().inner()) + post.framed().unsent().pending() + waiting_bytes(post.waiting()) == sent(
            pre.framed().inner(),
        ) + pre.framed().unsent().pending() + waiting_bytes(pre.waiting()),
        post.framed().unread() == pre.framed().unread(),
        post.waiting() != pre.waiting() ==> post.in_status() == SessionStatus::Established,
        pre.waiting() is None ==> post.waiting() is None,
        pre.waiting() is Some && post.waiting() is None ==> r == Ok::<DriveOutcome, Error>(DriveOutcome::Active),
        post.in_status() == SessionStatus::Established && post.framed().unsent().pending().len() == 0
            ==> post.waiting() is None || waiting_bytes(post.waiting()).len() == 0,
{
    let (mid, d) = choose|
        mid: FrameDuplex<S, Http1ResponseDeserializer, Http1RequestSerializer>,
        d: Result<DriveOutcome, Error>,
    | #[trigger]
        pre.framed().drives(&mid, d) && match d {
            Err(e) => r == d && post.framed() == mid && post.waiting() == pre.waiting(),
            Ok(o) => if mid.in_status() == SessionStatus::Established && pre.waiting() is Some {
                HttpClientSession::<S>::sends_waiting(&mid, pre.waiting()->0, o, &post, r)
            } else {
                r == d && post.framed() == mid && post.waiting() == pre.waiting()
            },
        };
    crate::frame::drive_keeps_bytes(pre.framed(), mid, d, sent);
    if mid.in_status() == SessionStatus::Established && pre.waiting() is Some {
        let request = pre.waiting()->0;
        let p = choose|p: Result<PublishOutcome<HttpRequest>, Error>| #[trigger]
            mid.publishes(request, &post.framed(), p) && match p {
                Err(e) => r == Err::<DriveOutcome, Error>(e) && post.waiting() is None,
                Ok(PublishOutcome::Published) => r == Ok::<DriveOutcome, Error>(DriveOutcome::Active)
                    && post.waiting() is None,
                Ok(PublishOutcome::Incomplete(rest)) => r == Ok::<DriveOutcome, Error>(d->Ok_0)
                    && post.waiting() == Some(rest),
            };
        crate::http::request::request_is_written_whole(
            mid.serializer(),
            request,
            mid.unsent(),
            post.framed().serializer(),
            post.framed().unsent(),
            p,
        );
        let before = sent(mid.inner()) + mid.unsent().pending();
        match p {
            Ok(PublishOutcome::Published) => {
                assert(sent(post.framed().inner()) + post.framed().unsent().pending() + waiting_bytes(post.waiting())
                    =~= before + waiting_bytes(Some(request)));
            },
            Ok(PublishOutcome::Incomplete(rest)) => {
                assert(waiting_bytes(Some(rest)) =~= waiting_bytes(Some(request)));
            },
            Err(_) => {},
        }
    }
}

/// Receiving drives the session, and gives what the framed session then receives. It gives no response before the connection
/// is established and the request that waits was sent.
pub proof fn no_response_before_request<S>(
    pre: HttpClientSession<S>,
    post: HttpClientSession<S>,
    r: Result<ReceiveOutcome<Response>, Error>,
) where
    S: for<'a> Publish<PublishPayload<'a> = &'a [u8]> + for<'a> Receive<
        ReceivePayload<'a> = &'a [u8],
    > + 'static,

    requires
        pre.receives(&post, r),
    ensures
        (r matches Ok(outcome) && outcome is Payload) ==> post.waiting() is None,
        exists|mid: HttpClientSession<S>, d: Result<DriveOutcome, Error>|
            {
                &&& #[trigger] pre.drives(&mid, d)
                &&& d matches Err(e) ==> r == Err::<ReceiveOutcome<Response>, Error>(e) && post == mid
                &&& d is Ok && mid.in_status() == SessionStatus::Established && mid.waiting() is None
                    ==> mid.framed().receives(&post.framed(), r) && post.waiting() is None
                &&& d is Ok && !(mid.in_status() == SessionStatus::Established && mid.waiting() is None) ==> r == Ok::<
                    ReceiveOutcome<Response>,
                    Error,
                >(ReceiveOutcome::Idle) && post == mid
            },
{
    let (mid, d) = choose|mid: HttpClientSession<S>, d: Result<DriveOutcome, Error>| #[trigger]
        pre.drives(&mid, d) && match d {
            Err(e) => r == Err::<ReceiveOutcome<Response>, Error>(e) && post == mid,
            Ok(_) => if mid.waiting() is None && mid.in_status() == SessionStatus::Established {
                mid.framed().receives(&post.framed(), r) && post.waiting() is None
            } else {
                r == Ok::<ReceiveOutcome<Response>, Error>(ReceiveOutcome::Idle) && post == mid
            },
        };
    assert(pre.drives(&mid, d));
}

/// A request that was not sent is sent behind all other bytes, as a whole and once, when it is its turn, and is kept as
/// long as there is no space for it.
pub proof fn pending_request_is_sent_once<S>(
    pending: PendingHttpResponse,
    connection: PersistentHttpConnection<S>,
    post: PendingHttpResponse,
    post_connection: PersistentHttpConnection<S>,
    r: Result<ReceiveOutcome<Response>, Error>,
) where
    S: for<'a> Publish<PublishPayload<'a> = &'a [u8]> + for<'a> Receive<
        ReceivePayload<'a> = &'a [u8],
    > + 'static,

    requires
        pending.unsent() is Some,
        pending.receives_response(&connection, &post, &post_connection, r),
        r is Ok,
    ensures
        post_connection.inner().framed().unsent().pending() + waiting_bytes(post.unsent())
            == connection.inner().framed().unsent().pending() + waiting_bytes(pending.unsent()),
        post.unsent() is None <==> r == Ok::<ReceiveOutcome<Response>, Error>(ReceiveOutcome::Buffered),
        post.unsent() is None ==> pending.id() == connection.active_id(),
        post_connection.active_id() == connection.active_id(),
        pending.id() == connection.active_id() && connection.in_status() == SessionStatus::Established
            && connection.inner().framed().unsent().pending().len() == 0 ==> post.unsent() is None,
{
    if connection.active_id() == pending.id() && connection.in_status() != SessionStatus::Establishing {
        let request = pending.unsent()->0;
        let p = choose|p: Result<PublishOutcome<HttpRequest>, Error>| #[trigger]
            connection.inner().publishes(request, &post_connection.inner(), p) && match p {
                Err(e) => r == Err::<ReceiveOutcome<Response>, Error>(e) && post.unsent() is None,
                Ok(PublishOutcome::Incomplete(rest)) => r == Ok::<ReceiveOutcome<Response>, Error>(
                    ReceiveOutcome::Idle,
                ) && post.unsent() == Some(rest),
                Ok(PublishOutcome::Published) => r == Ok::<ReceiveOutcome<Response>, Error>(
                    ReceiveOutcome::Buffered,
                ) && post.unsent() is None,
            };
        let framed = connection.inner().framed();
        let post_framed = post_connection.inner().framed();
        if framed.inner().in_status() == SessionStatus::Established {
            crate::http::request::request_is_written_whole(
                framed.serializer(),
                request,
                framed.unsent(),
                post_framed.serializer(),
                post_framed.unsent(),
                p,
            );
        }
        assert(post_framed.unsent().pending() + waiting_bytes(post.unsent()) =~= framed.unsent().pending()
            + waiting_bytes(pending.unsent()));
    }
}

/// The response that a request receives is one that the session gives, once the request was sent. When it announces that
/// the server closes the connection, the connection is closed for further requests; and one that is closed stays closed.
pub proof fn response_is_that_of_session<S>(
    pending: PendingHttpResponse,
    connection: PersistentHttpConnection<S>,
    post: PendingHttpResponse,
    post_connection: PersistentHttpConnection<S>,
    r: Result<ReceiveOutcome<Response>, Error>,
) where
    S: for<'a> Publish<PublishPayload<'a> = &'a [u8]> + for<'a> Receive<
        ReceivePayload<'a> = &'a [u8],
    > + 'static,

    requires
        pending.receives_response(&connection, &post, &post_connection, r),
    ensures
        r matches Ok(ReceiveOutcome::Payload(response)) ==> {
            &&& pending.unsent() is None
            &&& pending.id() == connection.active_id()
            &&& connection.inner().receives(&post_connection.inner(), r)
            &&& crate::http::headers::first_value(
                response@.headers,
                vstd::utf8::encode_utf8("connection"@),
            ) == Some(vstd::utf8::encode_utf8("close"@)) ==> post_connection.is_closed()
        },
        pending.unsent() is None && pending.id() == connection.active_id() ==> connection.inner().receives(
            &post_connection.inner(),
            r,
        ),
        post.id() == pending.id(),
        post_connection.next_id() == connection.next_id(),
        connection.is_closed() ==> post_connection.is_closed(),
        post_connection.is_closed() && !connection.is_closed() ==> (r matches Ok(ReceiveOutcome::Payload(response))
            && crate::http::headers::first_value(
            response@.headers,
            vstd::utf8::encode_utf8("connection"@),
        ) == Some(vstd::utf8::encode_utf8("close"@))),
{
    if let Ok(ReceiveOutcome::Payload(response)) = r {
        connection_is_closed_by_header(response@);
    }
}

/// What is published to a session, flushing and closing it is done by the framed session, and keeps the request that waits.
pub proof fn waiting_request_is_kept<S>(
    pre: HttpClientSession<S>,
    data: HttpRequest,
    published: HttpClientSession<S>,
    p: Result<PublishOutcome<HttpRequest>, Error>,
    flushed: HttpClientSession<S>,
    f: Result<(), Error>,
    closed: HttpClientSession<S>,
) where
    S: for<'a> Publish<PublishPayload<'a> = &'a [u8]> + for<'a> Receive<
        ReceivePayload<'a> = &'a [u8],
    > + Flush + 'static,

    requires
        pre.publishes(data, &published, p),
        pre.flushes(&flushed, f),
        pre.closes(&closed),
    ensures
        pre.in_status() == pre.framed().inner().in_status(),
        pre.framed().publishes(data, &published.framed(), p) && published.waiting() == pre.waiting(),
        pre.framed().flushes(&flushed.framed(), f) && flushed.waiting() == pre.waiting(),
        pre.framed().closes(&closed.framed()) && closed.waiting() == pre.waiting(),
{
}

/// Driving and closing a persistent connection is done by its session, and changes neither whose turn it is nor whether it
/// is closed for further requests.
pub proof fn turn_is_kept_by_session<S>(
    pre: PersistentHttpConnection<S>,
    driven: PersistentHttpConnection<S>,
    d: Result<DriveOutcome, Error>,
    closed: PersistentHttpConnection<S>,
) where
    S: for<'a> Publish<PublishPayload<'a> = &'a [u8]> + for<'a> Receive<
        ReceivePayload<'a> = &'a [u8],
    > + 'static,

    requires
        pre.drives(&driven, d),
        pre.closes(&closed),
    ensures
        pre.in_status() == pre.inner().in_status(),
        pre.inner().drives(&driven.inner(), d),
        driven.active_id() == pre.active_id() && driven.next_id() == pre.next_id() && driven.is_closed()
            == pre.is_closed(),
        pre.inner().closes(&closed.inner()),
        closed.active_id() == pre.active_id() && closed.next_id() == pre.next_id() && closed.is_closed()
            == pre.is_closed(),
{
}

/// A response whose head announces `n` bytes, all of which were received, is given at once, with exactly these bytes as its
/// body. The bytes of the response are no longer unread, and those behind it still are. Receiving fails only when the head
/// is not valid.
pub proof fn received_response_has_announced_body<S>(
    pre: FrameDuplex<S, Http1ResponseDeserializer, Http1RequestSerializer>,
    head: crate::http::response::HeadView,
    n: usize,
    post: FrameDuplex<S, Http1ResponseDeserializer, Http1RequestSerializer>,
    r: Result<ReceiveOutcome<Response>, Error>,
) where
    S: for<'a> Publish<PublishPayload<'a> = &'a [u8]> + for<'a> Receive<
        ReceivePayload<'a> = &'a [u8],
    > + 'static,

    requires
        pre.deserializer().response() is None,
        pre.deserializer().body() is None,
        pre.unread().len() <= usize::MAX,
        crate::http::response::httparse_response(
            pre.unread(),
            crate::http::response::line_breaks(pre.unread()),
        ) == Ok::<_, Seq<char>>(Some(head)),
        head.size + n <= pre.unread().len(),
        crate::http::response::header_value(head.headers, "transfer-encoding"@) is None,
        crate::http::response::header_value(head.headers, "content-length"@) == Some(
            crate::http::decimal::decimal(n as nat),
        ),
        pre.receives(&post, r),
    ensures
        match r {
            Ok(ReceiveOutcome::Payload(response)) => {
                &&& response@.body.len() == n
                &&& forall|i: int| 0 <= i < n ==> #[trigger] response@.body[i] == pre.unread()[head.size + i]
                &&& head.code matches Some(code) ==> response@.status == code
                &&& pre.unread() == pre.unread().take((head.size + n) as int) + post.unread()
                &&& post.inner() == pre.inner()
                &&& post.deserializer().response() is None
                &&& post.deserializer().body() is None
            },
            Ok(_) => false,
            Err(_) => post.unread() == pre.unread(),
        },
{
    let unread = pre.unread();
    let (mid, c) = choose|mid: Http1ResponseDeserializer, c: Result<bool, Error>| #[trigger]
        crate::frame::DeserializeFrame::checks(&pre.deserializer(), unread, false, &mid, c) && match c {
            Err(e) => {
                &&& r == Err::<ReceiveOutcome<Response>, Error>(e)
                &&& post.inner() == pre.inner()
                &&& post.deserializer() == mid
                &&& post.unread() == unread
            },
            Ok(complete) => if complete {
                post.inner() == pre.inner() && crate::frame::takes_frame(
                    &mid,
                    unread,
                    &post.deserializer(),
                    post.unread(),
                    r,
                )
            } else {
                post.deserializer() == mid && crate::frame::takes_bytes(
                    &pre.inner(),
                    unread,
                    &post.inner(),
                    post.unread(),
                    r,
                )
            },
        };
    if c == Ok::<bool, Error>(true) {
        let d = choose|d: Result<crate::frame::SizedFrame<Response>, Error>| #[trigger]
            crate::frame::DeserializeFrame::deserializes(&mid, unread, &post.deserializer(), d) && match d {
                Err(e) => {
                    &&& r == Err::<ReceiveOutcome<Response>, Error>(e)
                    &&& post.unread() == unread
                },
                Ok(sized) => {
                    &&& r == Ok::<ReceiveOutcome<Response>, Error>(ReceiveOutcome::Payload(sized.frame))
                    &&& sized.size <= unread.len()
                    &&& post.unread() == unread.skip(sized.size as int)
                },
            };
        crate::http::response::response_with_announced_length_is_deserialized(
            pre.deserializer(),
            unread,
            false,
            head,
            n,
            mid,
            c,
            post.deserializer(),
            d,
        );
        assert(unread =~= unread.take((head.size + n) as int) + unread.skip((head.size + n) as int));
    } else if c is Ok {
        crate::http::response::check_of_announced_body_succeeds(pre.deserializer(), unread, false, head, n, mid, c);
    }
}

} // verus!
