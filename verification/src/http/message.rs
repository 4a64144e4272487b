//! HTTP requests and responses
use vstd::prelude::*;
use vstd::slice::slice_to_vec;
use vstd::string::*;

use crate::error::{Error, ErrorKind};
use crate::http::headers::headers_new;

verus! {

#[derive(Debug, Clone, Copy, PartialEq, Eq, Hash, Structural)]
pub enum Scheme {
    Http,
    Https,
}

impl Scheme {
    /// The port of the scheme.
    pub open spec fn port(self) -> u16 {
        match self {
            Scheme::Http => 80,
            Scheme::Https => 443,
        }
    }

    pub fn default_port(&self) -> (r: u16)
        ensures
            r == self.port(),
    {
        match self {
            Self::Http => 80,
            Self::Https => 443,
        }
    }
}

/// The version of the HTTP protocol of a message.
#[derive(Debug, Clone, Copy, PartialEq, Eq, Hash, Structural)]
pub enum Version {
    Http09,
    Http10,
    Http11,
    Http2,
    Http3,
}

/// The parts of a URI.
pub struct Uri {
    pub scheme: Option<String>,
    pub host: Option<String>,
    pub port: Option<u16>,
    pub path: String,
    pub query: Option<String>,
    /// The path and the query as they stand in the URI, where the path may be empty before a query.
    pub path_and_query: Option<String>,
}

/// The parts of a URI as mathematical values.
pub struct UriView {
    pub scheme: Option<Seq<char>>,
    pub host: Option<Seq<char>>,
    pub port: Option<u16>,
    pub path: Seq<char>,
    pub query: Option<Seq<char>>,
    pub path_and_query: Option<Seq<char>>,
}

impl UriView {
    /// Whether the path and the query as they stand in the URI are its path and its query. A path that is empty there is
    /// otherwise a slash.
    pub open spec fn is_consistent(self) -> bool {
        match (self.path_and_query, self.query) {
            (Some(text), Some(query)) => {
                ||| text == self.path + "?"@ + query
                ||| self.path == "/"@ && text == "?"@ + query
            },
            (Some(text), None) => text == self.path,
            (None, _) => true,
        }
    }
}

/// The characters of a text that may be absent.
pub open spec fn text_view(text: Option<String>) -> Option<Seq<char>> {
    match text {
        Some(s) => Some(s@),
        None => None,
    }
}

impl View for Uri {
    type V = UriView;

    open spec fn view(&self) -> UriView {
        UriView {
            scheme: text_view(self.scheme),
            host: text_view(self.host),
            port: self.port,
            path: self.path@,
            query: text_view(self.query),
            path_and_query: text_view(self.path_and_query),
        }
    }
}

/// What the `http` crate makes of a text that is to be a URI: its parts, or nothing when it is none.
pub uninterp spec fn http_uri(text: Seq<char>) -> Option<UriView>;

/// [`::http::Uri`] parses a text, and gives the parts of what it parsed. The path and the query are also given as they
/// stand in the text.
#[verifier::external_body]
fn parse_uri(text: &str) -> (r: Option<Uri>)
    ensures
        match r {
            Some(uri) => http_uri(text@) == Some(uri@) && uri@.is_consistent(),
            None => http_uri(text@) is None,
        },
{
    let uri: ::http::Uri = text.parse().ok()?;
    Some(Uri {
        scheme: uri.scheme_str().map(|x| x.to_owned()),
        host: uri.host().map(|x| x.to_owned()),
        port: uri.port_u16(),
        path: uri.path().to_owned(),
        query: uri.query().map(|x| x.to_owned()),
        path_and_query: uri.path_and_query().map(|x| x.as_str().to_owned()),
    })
}

impl Uri {
    /// Parse a text into the parts of a URI.
    pub fn parse(text: &str) -> (r: Result<Self, Error>)
        ensures
            match http_uri(text@) {
                Some(uri) => r matches Ok(x) && x@ == uri && uri.is_consistent(),
                None => crate::error::fails(r, ErrorKind::InvalidData, "bad uri"@),
            },
    {
        match parse_uri(text) {
            Some(uri) => Ok(uri),
            None => Err(Error::new(ErrorKind::InvalidData, "bad uri")),
        }
    }
}

/// Extensible public trait to support serializing a variety of body types.
pub trait IntoBody: Sized {
    /// The bytes of the body.
    spec fn body_bytes(self) -> Seq<u8>;

    fn into_body(self) -> (r: Vec<u8>)
        ensures
            r@ == self.body_bytes(),
    ;
}

impl IntoBody for String {
    open spec fn body_bytes(self) -> Seq<u8> {
        vstd::utf8::encode_utf8(self@)
    }

    fn into_body(self) -> Vec<u8> {
        slice_to_vec(self.as_str().as_bytes())
    }
}

impl IntoBody for &str {
    open spec fn body_bytes(self) -> Seq<u8> {
        vstd::utf8::encode_utf8(self@)
    }

    fn into_body(self) -> Vec<u8> {
        slice_to_vec(self.as_bytes())
    }
}

impl IntoBody for Vec<u8> {
    open spec fn body_bytes(self) -> Seq<u8> {
        self@
    }

    fn into_body(self) -> Vec<u8> {
        self
    }
}

impl IntoBody for &[u8] {
    open spec fn body_bytes(self) -> Seq<u8> {
        self@
    }

    fn into_body(self) -> Vec<u8> {
        slice_to_vec(self)
    }
}

impl IntoBody for () {
    open spec fn body_bytes(self) -> Seq<u8> {
        Seq::empty()
    }

    fn into_body(self) -> Vec<u8> {
        Vec::new()
    }
}

/// An HTTP request. Its body is of type `T`.
pub struct Request<T> {
    pub method: String,
    pub uri: Uri,
    pub version: Version,
    pub headers: ::http::HeaderMap,
    pub body: T,
}

/// An HTTP request as mathematical values.
pub struct RequestView {
    pub method: Seq<char>,
    pub uri: UriView,
    pub version: Version,
    pub headers: Seq<(Seq<u8>, Seq<u8>)>,
    pub body: Seq<u8>,
}

impl<T: IntoBody> View for Request<T> {
    type V = RequestView;

    open spec fn view(&self) -> RequestView {
        RequestView {
            method: self.method@,
            uri: self.uri@,
            version: self.version,
            headers: crate::http::headers::header_entries(self.headers),
            body: self.body.body_bytes(),
        }
    }
}

impl<T: IntoBody> Request<T> {
    /// Create an HTTP/1.1 request without headers.
    pub fn new(method: &str, uri: Uri, body: T) -> (r: Self)
        ensures
            r@ == (RequestView {
                method: method@,
                uri: uri@,
                version: Version::Http11,
                headers: Seq::empty(),
                body: body.body_bytes(),
            }),
    {
        Self { method: method.to_owned(), uri, version: Version::Http11, headers: headers_new(), body }
    }

    /// Create an HTTP/1.1 GET request without headers for the URI that the text is.
    pub fn get(uri: &str, body: T) -> (r: Result<Self, Error>)
        ensures
            match http_uri(uri@) {
                Some(parts) => r matches Ok(x) && x@ == (RequestView {
                    method: "GET"@,
                    uri: parts,
                    version: Version::Http11,
                    headers: Seq::empty(),
                    body: body.body_bytes(),
                }),
                None => crate::error::fails(r, ErrorKind::InvalidData, "bad uri"@),
            },
    {
        let uri = Uri::parse(uri)?;
        Ok(Self::new("GET", uri, body))
    }

    /// Turn the body into its bytes.
    pub fn with_body_bytes(self) -> (r: Request<Vec<u8>>)
        ensures
            r@ == self@,
    {
        Request {
            method: self.method,
            uri: self.uri,
            version: self.version,
            headers: self.headers,
            body: self.body.into_body(),
        }
    }
}

/// An HTTP response.
pub struct Response {
    pub status: u16,
    pub version: Version,
    pub headers: ::http::HeaderMap,
    pub body: Vec<u8>,
}

/// An HTTP response as mathematical values.
pub struct ResponseView {
    pub status: u16,
    pub version: Version,
    pub headers: Seq<(Seq<u8>, Seq<u8>)>,
    pub body: Seq<u8>,
}

/// The response that is filled while a response is parsed: status 200, HTTP/1.1, without headers and body.
pub open spec fn blank_response() -> ResponseView {
    ResponseView { status: 200, version: Version::Http11, headers: Seq::empty(), body: Seq::empty() }
}

impl View for Response {
    type V = ResponseView;

    open spec fn view(&self) -> ResponseView {
        ResponseView {
            status: self.status,
            version: self.version,
            headers: crate::http::headers::header_entries(self.headers),
            body: self.body@,
        }
    }
}

impl Response {
    /// Create a response with status 200 and without headers.
    pub fn new(body: Vec<u8>) -> (r: Self)
        ensures
            r@ == (ResponseView { body: body@, ..blank_response() }),
    {
        Self { status: 200, version: Version::Http11, headers: headers_new(), body }
    }

    /// The status code.
    pub fn status(&self) -> (r: u16)
        ensures
            r == self@.status,
    {
        self.status
    }

    /// The bytes of the body.
    pub fn body(&self) -> (r: &Vec<u8>)
        ensures
            r@ == self@.body,
    {
        &self.body
    }
}

/// An HTTP Request, which can be represented by a [`Request`] or a serialized HTTP payload.
///
/// [`HttpRequest::Serialized`] is utilized to prevent needing to serialize a payload more than one time in
/// the event it needs to be retried due to back-pressure.
pub enum HttpRequest {
    Request(Request<Vec<u8>>),
    Serialized(Vec<u8>),
}

impl HttpRequest {
    /// The request, with its body turned into bytes.
    pub fn from_request<I: IntoBody>(value: Request<I>) -> (r: Self)
        ensures
            r matches HttpRequest::Request(request) && request@ == value@,
    {
        HttpRequest::Request(value.with_body_bytes())
    }
}

/// The port of HTTP is 80, and that of HTTP over TLS is 443.
pub proof fn ports_of_schemes()
    ensures
        Scheme::Http.port() == 80,
        Scheme::Https.port() == 443,
{
}

/// A text is sent as the bytes that encode it, bytes are sent as they are, and nothing is sent as no bytes.
pub proof fn bodies_are_sent_as_they_are(text: String, part: &str, bytes: Vec<u8>, slice: &[u8])
    ensures
        text.body_bytes() == vstd::utf8::encode_utf8(text@),
        vstd::utf8::decode_utf8(text.body_bytes()) == text@,
        part.body_bytes() == vstd::utf8::encode_utf8(part@),
        bytes.body_bytes() == bytes@,
        slice.body_bytes() == slice@,
        ().body_bytes().len() == 0,
{
    vstd::utf8::encode_utf8_decode_utf8(text@);
}

/// A request is what its parts are.
pub proof fn request_is_its_parts<T: IntoBody>(request: Request<T>)
    ensures
        request@.method == request.method@,
        request@.version == request.version,
        request@.headers == crate::http::headers::header_entries(request.headers),
        request@.body == request.body.body_bytes(),
        request@.uri.path == request.uri.path@,
        request@.uri.port == request.uri.port,
        request.uri.scheme matches Some(x) ==> request@.uri.scheme == Some(x@),
        request.uri.scheme is None ==> request@.uri.scheme is None,
        request.uri.host matches Some(x) ==> request@.uri.host == Some(x@),
        request.uri.host is None ==> request@.uri.host is None,
        request.uri.query matches Some(x) ==> request@.uri.query == Some(x@),
        request.uri.query is None ==> request@.uri.query is None,
        request.uri.path_and_query matches Some(x) ==> request@.uri.path_and_query == Some(x@),
        request.uri.path_and_query is None ==> request@.uri.path_and_query is None,
{
}

/// A response is what its parts are. The one that is filled while a response is parsed is empty, and a success.
pub proof fn response_is_its_parts(response: Response)
    ensures
        response@.status == response.status,
        response@.version == response.version,
        response@.headers == crate::http::headers::header_entries(response.headers),
        response@.body == response.body@,
        blank_response().status == 200,
        blank_response().version == Version::Http11,
        blank_response().headers.len() == 0,
        blank_response().body.len() == 0,
{
}

} // verus!
