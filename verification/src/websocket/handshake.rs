//! The client side of the WebSocket handshake
use tungstenite::client::IntoClientRequest;
use vstd::prelude::*;
use vstd::string::*;

use crate::error::{Error, ErrorKind};
use crate::http::decimal::format_digits;
use crate::http::headers::headers_get;
use crate::http::message::{Request, Response, Scheme, Uri, Version};
use crate::http::response::eq_ignore_ascii_case;

verus! {

/// What the `tungstenite` crate makes of a text that is to be upgraded to: the parts of the URI that it is and the value
/// of the host header, or an error text.
pub uninterp spec fn tungstenite_client_request(text: Seq<char>) -> Result<
    (crate::http::message::UriView, Seq<u8>),
    Seq<char>,
>;

/// The headers that ask for an upgrade.
pub open spec fn upgrade_headers(host: Seq<u8>, key: Seq<u8>) -> Seq<(Seq<u8>, Seq<u8>)> {
    seq![
        (vstd::utf8::encode_utf8("host"@), host),
        (vstd::utf8::encode_utf8("connection"@), vstd::utf8::encode_utf8("Upgrade"@)),
        (vstd::utf8::encode_utf8("upgrade"@), vstd::utf8::encode_utf8("websocket"@)),
        (vstd::utf8::encode_utf8("sec-websocket-version"@), vstd::utf8::encode_utf8("13"@)),
        (vstd::utf8::encode_utf8("sec-websocket-key"@), key),
    ]
}

/// Whether this is the request for an upgrade at a URI with that host, with some key.
pub open spec fn asks_for_upgrade(
    request: crate::http::message::RequestView,
    uri: crate::http::message::UriView,
    host: Seq<u8>,
) -> bool {
    &&& request.method == "GET"@
    &&& request.uri == uri
    &&& request.version == Version::Http11
    &&& request.body == Seq::<u8>::empty()
    &&& exists|key: Seq<u8>|
        key.len() == 24 && request.headers == #[trigger] upgrade_headers(host, key)
}

/// [`IntoClientRequest::into_client_request`] turns a text into a request for an upgrade at the URI that the text is, which
/// has a host. The key of the request is random: 16 bytes in the 24 characters of base64.
#[verifier::external_body]
fn into_client_request(text: &str) -> (r: Result<Request<()>, String>)
    ensures
        match r {
            Ok(request) => {
                &&& tungstenite_client_request(text@) matches Ok((uri, host))
                &&& crate::http::message::http_uri(text@) == Some(uri)
                &&& uri.host is Some
                &&& asks_for_upgrade(request@, uri, host)
            },
            Err(e) => tungstenite_client_request(text@) == Err::<
                (crate::http::message::UriView, Seq<u8>),
                _,
            >(e@),
        },
{
    let (parts, body) = text.into_client_request().map_err(|err| err.to_string())?.into_parts();
    let uri = Uri {
        scheme: parts.uri.scheme_str().map(|x| x.to_owned()),
        host: parts.uri.host().map(|x| x.to_owned()),
        port: parts.uri.port_u16(),
        path: parts.uri.path().to_owned(),
        query: parts.uri.query().map(|x| x.to_owned()),
        path_and_query: parts.uri.path_and_query().map(|x| x.as_str().to_owned()),
    };
    Ok(Request { method: parts.method.to_string(), uri, version: Version::Http11, headers: parts.headers, body })
}

/// The request for an upgrade at the URI that the text is.
pub fn client_request(text: &str) -> (r: Result<Request<()>, Error>)
    ensures
        match tungstenite_client_request(text@) {
            Ok((uri, host)) => r matches Ok(request) && asks_for_upgrade(request@, uri, host)
                && crate::http::message::http_uri(text@) == Some(uri) && uri.host is Some,
            Err(message) => crate::error::fails(r, ErrorKind::InvalidData, message),
        },
{
    match into_client_request(text) {
        Ok(request) => Ok(request),
        Err(message) => Err(Error::new(ErrorKind::InvalidData, message.as_str())),
    }
}

/// The bytes of an upgrade request, and the key that the server is to answer, that the `tungstenite` crate makes of a
/// path with a query, a version and headers; or an error text.
pub uninterp spec fn tungstenite_request(
    target: Seq<char>,
    version: Version,
    headers: Seq<(Seq<u8>, Seq<u8>)>,
) -> Result<(Seq<u8>, Seq<char>), Seq<char>>;

/// The answer to a key that the `tungstenite` crate derives.
pub uninterp spec fn tungstenite_accept_key(key: Seq<char>) -> Seq<char>;

/// [`tungstenite::handshake::client::generate_request`] writes an upgrade request for a path with a query, a version and
/// headers.
#[verifier::external_body]
fn generate_request(target: &str, version: Version, headers: &::http::HeaderMap) -> (r: Result<
    (Vec<u8>, String),
    String,
>)
    ensures
        match r {
            Ok(x) => tungstenite_request(
                target@,
                version,
                crate::http::headers::header_entries(*headers),
            ) == Ok::<_, Seq<char>>((x.0@, x.1@)),
            Err(text) => tungstenite_request(
                target@,
                version,
                crate::http::headers::header_entries(*headers),
            ) == Err::<(Seq<u8>, Seq<char>), _>(text@),
        },
{
    let mut request = ::http::Request::new(());
    let target: ::http::uri::PathAndQuery = target.parse().map_err(|err: ::http::uri::InvalidUri| err.to_string())?;
    *request.uri_mut() = ::http::Uri::from(target);
    *request.headers_mut() = headers.clone();
    *request.version_mut() = match version {
        Version::Http09 => ::http::Version::HTTP_09,
        Version::Http10 => ::http::Version::HTTP_10,
        Version::Http11 => ::http::Version::HTTP_11,
        Version::Http2 => ::http::Version::HTTP_2,
        Version::Http3 => ::http::Version::HTTP_3,
    };
    tungstenite::handshake::client::generate_request(request).map_err(|err| err.to_string())
}

/// [`tungstenite::handshake::derive_accept_key`] derives the answer to a key.
#[verifier::external_body]
fn derive_accept_key(key: &str) -> (r: String)
    ensures
        r@ == tungstenite_accept_key(key@),
{
    tungstenite::handshake::derive_accept_key(key.as_bytes())
}

/// The text of a status code in the `http` crate: the number and the reason.
pub uninterp spec fn http_status_text(code: u16) -> Seq<char>;

/// A [`::http::StatusCode`] is displayed as its text. Only the codes from 100 to 999 are status codes.
#[verifier::external_body]
fn status_text(code: u16) -> (r: String)
    requires
        100 <= code < 1000,
    ensures
        r@ == http_status_text(code),
{
    ::http::StatusCode::from_u16(code).unwrap().to_string()
}

/// The text of the status of a response: that of the status code, or the number alone when it is none.
pub open spec fn shown_status(code: u16) -> Seq<char> {
    if 100 <= code < 1000 {
        http_status_text(code)
    } else {
        crate::http::decimal::digits(code as nat)
    }
}

/// The scheme of the connection for a WebSocket URI with that scheme.
pub open spec fn scheme_of(scheme: Option<Seq<char>>) -> Option<Scheme> {
    match scheme {
        None => Some(Scheme::Http),
        Some(text) => if text == "ws"@ {
            Some(Scheme::Http)
        } else if text == "wss"@ {
            Some(Scheme::Https)
        } else {
            None
        },
    }
}

/// The scheme of the connection for a WebSocket URI with that scheme.
pub fn connect_scheme(scheme: &Option<String>) -> (r: Result<Scheme, Error>)
    ensures
        match scheme_of(crate::http::message::text_view(*scheme)) {
            Some(x) => r == Ok::<Scheme, Error>(x),
            None => crate::error::fails(
                r,
                ErrorKind::InvalidData,
                "invalid scheme Some(\""@ + scheme->0@ + "\")"@,
            ),
        },
        scheme matches Some(text) && text@ == "ws"@ ==> r == Ok::<Scheme, Error>(Scheme::Http),
        scheme matches Some(text) && text@ == "wss"@ ==> r == Ok::<Scheme, Error>(Scheme::Https),
        scheme is None ==> r == Ok::<Scheme, Error>(Scheme::Http),
        scheme matches Some(text) && text@ != "ws"@ && text@ != "wss"@ ==> r is Err,
{
    proof {
        schemes_of_websocket("ws"@);
    }
    match scheme {
        None => Ok(Scheme::Http),
        Some(text) => if *text == "ws".to_owned() {
            Ok(Scheme::Http)
        } else if *text == "wss".to_owned() {
            Ok(Scheme::Https)
        } else {
            let mut message = "invalid scheme Some(\"".to_owned();
            message.append(text.as_str());
            message.append("\")");
            Err(Error::new(ErrorKind::InvalidData, message.as_str()))
        },
    }
}

/// Why a request cannot ask for an upgrade, if it cannot: its method is not GET, its version is below 1.1, its scheme is
/// not one of WebSocket, or its URI has neither a path nor a query.
pub open spec fn upgrade_fault(request: crate::http::message::RequestView) -> Option<Seq<char>> {
    if request.method != "GET"@ {
        Some("WebSocket protocol error: Unsupported HTTP method used - only GET is allowed"@)
    } else if request.version == Version::Http09 || request.version == Version::Http10 {
        Some("WebSocket protocol error: HTTP version must be 1.1 or higher"@)
    } else if request.uri.scheme != Some("ws"@) && request.uri.scheme != Some("wss"@) {
        Some("URL error: URL scheme not supported"@)
    } else if request.uri.path_and_query is None {
        Some("URL error: No path/query in URL"@)
    } else {
        None
    }
}

/// Check that a request can ask for an upgrade.
pub fn check_upgrade_request(request: &Request<()>) -> (r: Result<(), Error>)
    ensures
        match upgrade_fault(request@) {
            Some(text) => crate::error::fails(r, ErrorKind::Other, text),
            None => r is Ok,
        },
{
    if request.method != "GET".to_owned() {
        return Err(
            Error::new(
                ErrorKind::Other,
                "WebSocket protocol error: Unsupported HTTP method used - only GET is allowed",
            ),
        );
    }
    if request.version == Version::Http09 || request.version == Version::Http10 {
        return Err(
            Error::new(
                ErrorKind::Other,
                "WebSocket protocol error: HTTP version must be 1.1 or higher",
            ),
        );
    }
    let supported = match &request.uri.scheme {
        Some(scheme) => *scheme == "ws".to_owned() || *scheme == "wss".to_owned(),
        None => false,
    };
    if !supported {
        return Err(Error::new(ErrorKind::Other, "URL error: URL scheme not supported"));
    }
    if request.uri.path_and_query.is_none() {
        return Err(Error::new(ErrorKind::Other, "URL error: No path/query in URL"));
    }
    Ok(())
}

/// The bytes that start a handshake, and the answer that the server is to give.
pub struct HandshakeStart {
    pub request: Vec<u8>,
    pub accept_key: String,
}

/// Start a handshake with a request.
pub fn start_handshake(request: &Request<()>) -> (r: Result<HandshakeStart, Error>)
    ensures
        match upgrade_fault(request@) {
            Some(text) => crate::error::fails(r, ErrorKind::Other, text),
            None => match tungstenite_request(
                request@.uri.path_and_query->0,
                request@.version,
                request@.headers,
            ) {
                Ok((bytes, key)) => {
                    &&& r matches Ok(start)
                    &&& start.request@ == bytes
                    &&& start.accept_key@ == tungstenite_accept_key(key)
                },
                Err(text) => crate::error::fails(r, ErrorKind::Other, text),
            },
        },
{
    check_upgrade_request(request)?;
    let target = match &request.uri.path_and_query {
        Some(target) => target,
        None => vstd::pervasive::unreached(),
    };
    match generate_request(target.as_str(), request.version, &request.headers) {
        Ok((bytes, key)) => Ok(
            HandshakeStart { request: bytes, accept_key: derive_accept_key(key.as_str()) },
        ),
        Err(text) => Err(Error::new(ErrorKind::Other, text.as_str())),
    }
}

/// The first value of a header of a response, as it is received.
pub open spec fn response_header(response: crate::http::message::ResponseView, name: Seq<char>) -> Option<
    Seq<u8>,
> {
    crate::http::headers::first_value(
        response.headers,
        crate::http::headers::lowercase(vstd::utf8::encode_utf8(name)),
    )
}

/// Whether a header of a response has that value, when upper and lower case letters are taken to be the same.
pub open spec fn has_header(
    response: crate::http::message::ResponseView,
    name: Seq<char>,
    value: Seq<char>,
) -> bool {
    response_header(response, name) matches Some(v) && crate::http::response::same_letters(
        v,
        vstd::utf8::encode_utf8(value),
    )
}

/// Why a response does not complete the handshake, if it does not: it does not switch protocols, a header is missing, or
/// the server gave another answer than the expected one.
pub open spec fn response_fault(
    accept_key: Seq<char>,
    response: crate::http::message::ResponseView,
) -> Option<Seq<char>> {
    if response.status != 101 {
        Some("HTTP error: "@ + shown_status(response.status))
    } else if !has_header(response, "upgrade"@, "websocket"@) {
        Some("WebSocket protocol error: No \"Upgrade: websocket\" header"@)
    } else if !has_header(response, "connection"@, "upgrade"@) {
        Some("WebSocket protocol error: No \"Connection: upgrade\" header"@)
    } else if response_header(response, "sec-websocket-accept"@) != Some(
        vstd::utf8::encode_utf8(accept_key),
    ) {
        Some("WebSocket protocol error: Key mismatch in \"Sec-WebSocket-Accept\" header"@)
    } else {
        None
    }
}

proof fn lemma_header_names()
    ensures
        crate::http::headers::is_header_name(vstd::utf8::encode_utf8("upgrade"@)),
        crate::http::headers::is_header_name(vstd::utf8::encode_utf8("connection"@)),
        crate::http::headers::is_header_name(vstd::utf8::encode_utf8("sec-websocket-accept"@)),
{
    reveal_strlit("upgrade");
    reveal_strlit("connection");
    reveal_strlit("sec-websocket-accept");
    lemma_ascii_name("upgrade"@);
    lemma_ascii_name("connection"@);
    lemma_ascii_name("sec-websocket-accept"@);
}

/// A text of lower case letters and hyphens is a header name.
proof fn lemma_ascii_name(name: Seq<char>)
    requires
        0 < name.len() <= 65535,
        forall|i: int| 0 <= i < name.len() ==> 'a' <= #[trigger] name[i] <= 'z' || name[i] == '-',
    ensures
        crate::http::headers::is_header_name(vstd::utf8::encode_utf8(name)),
{
    vstd::utf8::is_ascii_chars_encode_utf8(name);
    let bytes = vstd::utf8::encode_utf8(name);
    assert forall|i: int| 0 <= i < bytes.len() implies crate::http::headers::is_token(
        #[trigger] bytes[i],
    ) by {
        assert(bytes[i] == name[i] as u8);
    }
}

fn equal_bytes(a: &[u8], b: &[u8]) -> (r: bool)
    ensures
        r == (a@ == b@),
{
    if a.len() != b.len() {
        return false;
    }
    let mut i: usize = 0;
    while i < a.len()
        invariant
            i <= a@.len() == b@.len(),
            forall|k: int| 0 <= k < i ==> a@[k] == b@[k],
        decreases a@.len() - i,
    {
        if a[i] != b[i] {
            return false;
        }
        i = i + 1;
    }
    assert(a@ =~= b@);
    true
}

fn is_header(response: &Response, name: &str, value: &str) -> (r: bool)
    requires
        crate::http::headers::is_header_name(vstd::utf8::encode_utf8(name@)),
    ensures
        r == has_header(response@, name@, value@),
{
    match headers_get(&response.headers, name) {
        Some(v) => eq_ignore_ascii_case(v.as_slice(), value.as_bytes()),
        None => false,
    }
}

/// Check that a response completes the handshake.
pub fn verify_response(accept_key: &str, response: Response) -> (r: Result<Response, Error>)
    ensures
        match response_fault(accept_key@, response@) {
            Some(text) => crate::error::fails(r, ErrorKind::Other, text),
            None => r == Ok::<Response, Error>(response),
        },
{
    proof {
        lemma_header_names();
    }
    if response.status != 101 {
        let mut message = "HTTP error: ".to_owned();
        let status = if 100 <= response.status && response.status < 1000 {
            status_text(response.status)
        } else {
            format_digits(response.status as usize)
        };
        message.append(status.as_str());
        return Err(Error::new(ErrorKind::Other, message.as_str()));
    }
    if !is_header(&response, "upgrade", "websocket") {
        return Err(
            Error::new(
                ErrorKind::Other,
                "WebSocket protocol error: No \"Upgrade: websocket\" header",
            ),
        );
    }
    if !is_header(&response, "connection", "upgrade") {
        return Err(
            Error::new(
                ErrorKind::Other,
                "WebSocket protocol error: No \"Connection: upgrade\" header",
            ),
        );
    }
    let accepted = match headers_get(&response.headers, "sec-websocket-accept") {
        Some(v) => equal_bytes(v.as_slice(), accept_key.as_bytes()),
        None => false,
    };
    if !accepted {
        return Err(
            Error::new(
                ErrorKind::Other,
                "WebSocket protocol error: Key mismatch in \"Sec-WebSocket-Accept\" header",
            ),
        );
    }
    Ok(response)
}

/// A URI with scheme `ws`, or with none, is for a plain connection, one with `wss` is for one over TLS, and any other scheme
/// is for neither.
pub proof fn schemes_of_websocket(scheme: Seq<char>)
    ensures
        scheme_of(None) == Some(Scheme::Http),
        scheme_of(Some("ws"@)) == Some(Scheme::Http),
        scheme_of(Some("wss"@)) == Some(Scheme::Https),
        scheme != "ws"@ && scheme != "wss"@ ==> scheme_of(Some(scheme)) is None,
{
    reveal_strlit("ws");
    reveal_strlit("wss");
    assert("ws"@.len() != "wss"@.len());
}

/// A request can ask for an upgrade if and only if its method is `GET`, its version is not below 1.1, its scheme is `ws` or
/// `wss`, and it has a path or a query.
pub proof fn upgrade_is_asked_for_by_get(request: crate::http::message::RequestView)
    ensures
        upgrade_fault(request) is None <==> {
            &&& request.method == "GET"@
            &&& request.version == Version::Http11 || request.version == Version::Http2 || request.version
                == Version::Http3
            &&& request.uri.scheme == Some("ws"@) || request.uri.scheme == Some("wss"@)
            &&& request.uri.path_and_query is Some
        },
        request.method != "GET"@ ==> upgrade_fault(request) == Some(
            "WebSocket protocol error: Unsupported HTTP method used - only GET is allowed"@,
        ),
        request.method == "GET"@ && request.version == Version::Http10 ==> upgrade_fault(request) == Some(
            "WebSocket protocol error: HTTP version must be 1.1 or higher"@,
        ),
        request.method == "GET"@ && request.version == Version::Http11 && request.uri.scheme == Some("http"@)
            ==> upgrade_fault(request) == Some("URL error: URL scheme not supported"@),
        request.method == "GET"@ && request.version == Version::Http11 && request.uri.scheme == Some("ws"@)
            && request.uri.path_and_query is None ==> upgrade_fault(request) == Some(
            "URL error: No path/query in URL"@,
        ),
{
    reveal_strlit("http");
    reveal_strlit("ws");
    reveal_strlit("wss");
    assert("http"@.len() == 4 && "ws"@.len() == 2 && "wss"@.len() == 3);
}

/// The request for an upgrade is a `GET` request of version 1.1 without a body, whose headers are the host, those that ask
/// for the upgrade to a WebSocket of version 13, and the key.
pub proof fn upgrade_request_has_its_headers(
    request: crate::http::message::RequestView,
    uri: crate::http::message::UriView,
    host: Seq<u8>,
)
    requires
        asks_for_upgrade(request, uri, host),
    ensures
        request.method == "GET"@,
        request.uri == uri,
        request.version == Version::Http11,
        request.body.len() == 0,
        request.headers.len() == 5,
        request.headers[0] == (vstd::utf8::encode_utf8("host"@), host),
        request.headers[1] == (vstd::utf8::encode_utf8("connection"@), vstd::utf8::encode_utf8("Upgrade"@)),
        request.headers[2] == (vstd::utf8::encode_utf8("upgrade"@), vstd::utf8::encode_utf8("websocket"@)),
        request.headers[3] == (vstd::utf8::encode_utf8("sec-websocket-version"@), vstd::utf8::encode_utf8("13"@)),
        request.headers[4].0 == vstd::utf8::encode_utf8("sec-websocket-key"@),
        request.headers[4].1.len() == 24,
{
}

/// A text of lower case letters and hyphens is its own lower case form.
proof fn lemma_name_is_lowercase(name: Seq<char>)
    requires
        forall|i: int| 0 <= i < name.len() ==> 'a' <= #[trigger] name[i] <= 'z' || name[i] == '-',
    ensures
        crate::http::headers::lowercase(vstd::utf8::encode_utf8(name)) == vstd::utf8::encode_utf8(name),
{
    vstd::utf8::is_ascii_chars_encode_utf8(name);
    let bytes = vstd::utf8::encode_utf8(name);
    assert forall|i: int| 0 <= i < bytes.len() implies crate::http::headers::lower(#[trigger] bytes[i]) == bytes[i] by {
        assert(bytes[i] == name[i] as u8);
    }
    assert(crate::http::headers::lowercase(bytes) =~= bytes);
}

/// A response completes the handshake if and only if its status is 101, it has the headers `upgrade: websocket` and
/// `connection: upgrade`, in letters of any case, and the answer in `sec-websocket-accept` is exactly the expected one.
pub proof fn response_completes_handshake(accept_key: Seq<char>, response: crate::http::message::ResponseView)
    ensures
        response_fault(accept_key, response) is None <==> {
            &&& response.status == 101
            &&& crate::http::headers::first_value(
                response.headers,
                vstd::utf8::encode_utf8("upgrade"@),
            ) matches Some(upgrade) && crate::http::response::same_letters(
                upgrade,
                vstd::utf8::encode_utf8("websocket"@),
            )
            &&& crate::http::headers::first_value(
                response.headers,
                vstd::utf8::encode_utf8("connection"@),
            ) matches Some(connection) && crate::http::response::same_letters(
                connection,
                vstd::utf8::encode_utf8("upgrade"@),
            )
            &&& crate::http::headers::first_value(
                response.headers,
                vstd::utf8::encode_utf8("sec-websocket-accept"@),
            ) == Some(vstd::utf8::encode_utf8(accept_key))
        },
        response.status != 101 && 100 <= response.status < 1000 ==> response_fault(accept_key, response) == Some(
            "HTTP error: "@ + http_status_text(response.status),
        ),
        response.status < 100 || response.status >= 1000 ==> response_fault(accept_key, response) == Some(
            "HTTP error: "@ + crate::http::decimal::digits(response.status as nat),
        ),
        response.status == 101 && crate::http::headers::first_value(
            response.headers,
            vstd::utf8::encode_utf8("upgrade"@),
        ) is None ==> response_fault(accept_key, response) == Some(
            "WebSocket protocol error: No \"Upgrade: websocket\" header"@,
        ),
        response_fault(accept_key, response) is Some && response.status == 101 ==> {
            ||| response_fault(accept_key, response) == Some(
                "WebSocket protocol error: No \"Upgrade: websocket\" header"@,
            )
            ||| response_fault(accept_key, response) == Some(
                "WebSocket protocol error: No \"Connection: upgrade\" header"@,
            )
            ||| response_fault(accept_key, response) == Some(
                "WebSocket protocol error: Key mismatch in \"Sec-WebSocket-Accept\" header"@,
            )
        },
{
    reveal_strlit("upgrade");
    reveal_strlit("connection");
    reveal_strlit("sec-websocket-accept");
    lemma_name_is_lowercase("upgrade"@);
    lemma_name_is_lowercase("connection"@);
    lemma_name_is_lowercase("sec-websocket-accept"@);
}

} // verus!
