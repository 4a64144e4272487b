use std::sync::Arc;

use nbio::buffer::GrowableCircleBuf;
use nbio::frame::{DeserializeFrame, FrameDuplex, SerializeFrame};
use nbio::http::client::{connect_stream, request_scheme};
use nbio::http::decimal::{format_bytes, format_digits, format_usize, parse_usize};
use nbio::http::request::serialize_request;
use nbio::http::response::{
    count_max_headers, ends_with_ascii, parse_body, parse_body_info, parse_chunks, parsed_into_response, BodyInfo,
    BodyType, Header, ResponseHead,
};
use nbio::http::{
    Http1RequestSerializer, Http1ResponseDeserializer, HttpClient, HttpClientSession, HttpRequest, IntoBody,
    PersistentHttpConnection, Request, Response, Scheme, Uri, Version,
};
use nbio::{
    DriveOutcome, Error, ErrorKind, Flush, Publish, PublishOutcome, Receive, ReceiveOutcome, Session, SessionStatus,
};

/// A server in memory that answers each request with the next of its responses, a few bytes at a time.
struct Server {
    status: SessionStatus,
    requests: Vec<u8>,
    answered: usize,
    responses: Vec<Vec<u8>>,
    outgoing: Vec<u8>,
    read_buffer: Vec<u8>,
    read_size: usize,
}

impl Server {
    fn new(responses: &[&str], read_size: usize) -> Self {
        Self {
            status: SessionStatus::Establishing,
            requests: Vec::new(),
            answered: 0,
            responses: responses.iter().map(|x| x.as_bytes().to_vec()).collect(),
            outgoing: Vec::new(),
            read_buffer: Vec::new(),
            read_size,
        }
    }
}

impl Session for Server {
    fn status(&self) -> SessionStatus {
        self.status
    }

    fn close(&mut self) {
        self.status = SessionStatus::Terminated;
    }

    fn drive(&mut self) -> Result<DriveOutcome, Error> {
        if self.status == SessionStatus::Establishing {
            self.status = SessionStatus::Established;
            return Ok(DriveOutcome::Active);
        }
        Ok(DriveOutcome::Idle)
    }
}

impl Publish for Server {
    type PublishPayload<'a> = &'a [u8];

    fn publish<'a>(
        &mut self,
        payload: Self::PublishPayload<'a>,
    ) -> Result<PublishOutcome<Self::PublishPayload<'a>>, Error> {
        self.requests.extend_from_slice(payload);
        let complete = self.requests.windows(4).filter(|x| x == b"\r\n\r\n").count();
        while self.answered < complete {
            let response = self.responses.get(self.answered).cloned().unwrap_or_default();
            self.outgoing.extend_from_slice(&response);
            self.answered += 1;
        }
        Ok(PublishOutcome::Published)
    }
}

impl Receive for Server {
    type ReceivePayload<'a> = &'a [u8];

    fn receive<'a>(&'a mut self) -> Result<ReceiveOutcome<Self::ReceivePayload<'a>>, Error> {
        if self.outgoing.is_empty() {
            return Ok(ReceiveOutcome::Idle);
        }
        let count = self.outgoing.len().min(self.read_size);
        self.read_buffer = self.outgoing.drain(..count).collect();
        Ok(ReceiveOutcome::Payload(&self.read_buffer))
    }
}

impl Flush for Server {
    fn flush(&mut self) -> Result<(), Error> {
        Ok(())
    }
}

fn framed(server: Server) -> FrameDuplex<Server, Http1ResponseDeserializer, Http1RequestSerializer> {
    FrameDuplex::new(server, Http1ResponseDeserializer::new(), Http1RequestSerializer::new(), 0)
}

fn client() -> HttpClient<(), ()> {
    HttpClient::new()
}

/// Drive and receive until there is a response.
fn next_response(conn: &mut HttpClientSession<Server>) -> Response {
    for _ in 0..100000 {
        conn.drive().unwrap();
        if let ReceiveOutcome::Payload(r) = conn.receive().unwrap() {
            return r;
        }
    }
    panic!("no response");
}

/// Whether the text is an IP V4 address.
fn is_ip_v4(text: &str) -> bool {
    let parts: Vec<&str> = text.split('.').collect();
    parts.len() == 4 && parts.iter().all(|x| x.parse::<u8>().is_ok())
}

const CHUNKED: &str = "HTTP/1.1 200 OK\r\nContent-Type: text/html\r\nTransfer-Encoding: chunked\r\n\r\n\
    6\r\n<html>\r\n10\r\n<body>hi</body>\n\r\n7\r\n</html>\r\n0\r\n\r\n";

const ADDRESS: &str = "HTTP/1.1 200 OK\r\nContent-Length: 13\r\nConnection: keep-alive\r\n\r\n203.0.113.42\n";

#[test]
fn test_google_chunked_response() {
    // create the client and make the request
    let (target, request) = client().request(Request::get("https://www.google.com", ()).unwrap()).unwrap();
    assert_eq!(target.addr, "www.google.com:443");
    assert_eq!(target.domain, Some("www.google.com".to_owned()));
    let mut conn = HttpClientSession::with_request(framed(Server::new(&[CHUNKED], 7)), request);

    // receive the conn until a full response is received
    let r = next_response(&mut conn);
    // validate the response
    assert_eq!(r.status(), 200);
    assert!(String::from_utf8_lossy(r.body()).ends_with("</html>"));
    assert_eq!(r.body().as_slice(), b"<html><body>hi</body>\n</html>");
}

#[test]
fn test_simple_response() {
    // create the client and make the request
    let (target, request) = client().request(Request::get("http://icanhazip.com", ()).unwrap()).unwrap();
    assert_eq!(target.addr, "icanhazip.com:80");
    assert_eq!(target.domain, None);
    let mut conn = HttpClientSession::with_request(framed(Server::new(&[ADDRESS], 5)), request);

    // receive the conn until a full response is received
    let r = next_response(&mut conn);
    // validate the response
    assert_eq!(r.status(), 200);
    let body = String::from_utf8_lossy(r.body());
    assert!(is_ip_v4(body.trim()));
}

#[test]
fn test_keep_alive() {
    // create the client and make the initial request
    let (_, request) = client().request(Request::get("http://icanhazip.com", ()).unwrap()).unwrap();
    let mut conn = HttpClientSession::with_request(framed(Server::new(&[ADDRESS, ADDRESS], 1000)), request);

    // receive the conn until the first full response is received
    let r = next_response(&mut conn);
    assert_eq!(r.status(), 200);
    assert!(is_ip_v4(String::from_utf8_lossy(r.body()).trim()));

    // write another request
    let request = HttpRequest::from_request(Request::get("http://icanhazip.com", Vec::new()).unwrap());
    assert!(conn.publish(request).unwrap().is_published());

    // receive the conn until the second full response is received
    let r = next_response(&mut conn);
    assert_eq!(r.status(), 200);
    assert!(is_ip_v4(String::from_utf8_lossy(r.body()).trim()));
}

#[test]
fn persistent_connection_answers_in_order() {
    let first = "HTTP/1.1 200 OK\r\nContent-Length: 5\r\n\r\nfirst";
    let second = "HTTP/1.1 404 Not Found\r\nContent-Length: 6\r\nConnection: close\r\n\r\nsecond";
    let mut connection = PersistentHttpConnection::new(HttpClientSession::new(framed(Server::new(
        &[first, second],
        1000,
    ))));
    let mut a = connection.request(Request::get("http://example.com/a", ()).unwrap()).unwrap();
    let mut b = connection.request(Request::get("http://example.com/b", ()).unwrap()).unwrap();
    while a.status(&connection) == SessionStatus::Establishing {
        a.drive(&mut connection).unwrap();
    }

    // it is not the turn of the second request
    assert!(matches!(b.receive(&mut connection), Ok(ReceiveOutcome::Idle)));
    assert_eq!(b.drive(&mut connection).unwrap(), DriveOutcome::Idle);

    let mut bodies: Vec<(u16, Vec<u8>)> = Vec::new();
    for _ in 0..20 {
        a.drive(&mut connection).unwrap();
        b.drive(&mut connection).unwrap();
        if let ReceiveOutcome::Payload(r) = a.receive(&mut connection).unwrap() {
            bodies.push((r.status(), r.body().clone()));
        }
        if let ReceiveOutcome::Payload(r) = b.receive(&mut connection).unwrap() {
            bodies.push((r.status(), r.body().clone()));
        }
    }
    assert_eq!(bodies, vec![(200, b"first".to_vec()), (404, b"second".to_vec())]);

    // the last response announced that the connection is closed
    let err = connection.request(Request::get("http://example.com/c", ()).unwrap()).err().unwrap();
    assert_eq!(err.kind(), ErrorKind::ConnectionRefused);
    assert_eq!(err.message, "connection closed by server");
}

#[test]
fn request_waits_for_the_connection_to_be_established() {
    let mut connection = PersistentHttpConnection::new(HttpClientSession::new(framed(Server::new(&[ADDRESS, ADDRESS], 1000))));
    let mut a = connection.request(Request::get("http://example.com/a", ()).unwrap()).unwrap();
    let mut b = connection.request(Request::get("http://example.com/b", ()).unwrap()).unwrap();
    assert_eq!(connection.status(), SessionStatus::Establishing);
    // the request is kept, as often as the response is asked for
    for _ in 0..3 {
        assert!(matches!(a.receive(&mut connection), Ok(ReceiveOutcome::Idle)));
        assert_eq!(connection.status(), SessionStatus::Establishing);
    }
    assert_eq!(a.drive(&mut connection).unwrap(), DriveOutcome::Active);
    assert_eq!(connection.status(), SessionStatus::Established);
    // it is published once the connection is established
    assert!(matches!(a.receive(&mut connection), Ok(ReceiveOutcome::Buffered)));
    let mut answers: Vec<&str> = Vec::new();
    for _ in 0..10 {
        if let ReceiveOutcome::Payload(_) = b.receive(&mut connection).unwrap() {
            answers.push("b");
        }
        if let ReceiveOutcome::Payload(_) = a.receive(&mut connection).unwrap() {
            answers.push("a");
        }
    }
    assert_eq!(answers, vec!["a", "b"]);
    // a connection that was closed cannot send a request
    let mut c = connection.request(Request::get("http://example.com/c", ()).unwrap()).unwrap();
    connection.close();
    assert_eq!(c.receive(&mut connection).err().unwrap().kind(), ErrorKind::NotConnected);
}

#[test]
fn requests_of_a_persistent_connection_are_kept_alive() {
    let mut connection = PersistentHttpConnection::new(HttpClientSession::new(framed(Server::new(&[ADDRESS], 1000))));
    connection.drive().unwrap();
    let mut pending = connection.request(Request::get("http://example.com/x?y=z", "body").unwrap()).unwrap();
    assert!(matches!(pending.receive(&mut connection), Ok(ReceiveOutcome::Buffered)));
    let mut status = None;
    for _ in 0..5 {
        pending.drive(&mut connection).unwrap();
        if let ReceiveOutcome::Payload(r) = pending.receive(&mut connection).unwrap() {
            status = Some(r.status());
        }
    }
    assert_eq!(status, Some(200));
    connection.close();
    assert_eq!(connection.status(), SessionStatus::Terminated);
}

#[test]
fn response_without_length_ends_with_the_connection() {
    let data = b"HTTP/1.1 200 OK\r\n\r\nuntil the end";
    let mut deserializer = Http1ResponseDeserializer::new();
    assert!(!deserializer.check_deserialize_frame(data, false).unwrap());
    assert!(deserializer.check_deserialize_frame(data, true).unwrap());
    let sized = deserializer.deserialize_frame(data).unwrap();
    assert_eq!(sized.frame.body().as_slice(), b"until the end");
    assert_eq!(sized.size, data.len());
}

#[test]
fn deserializer_waits_for_the_whole_response() {
    let data = b"HTTP/1.1 204 No Content\r\nContent-Length: 3\r\nX-One: 1\r\n\r\nabcHTTP/1.1";
    for end in 0..data.len() - 8 {
        let mut deserializer = Http1ResponseDeserializer::new();
        let complete = deserializer.check_deserialize_frame(&data[..end], false).unwrap();
        assert_eq!(complete, end >= data.len() - 8);
    }
    let mut deserializer = Http1ResponseDeserializer::new();
    assert!(deserializer.check_deserialize_frame(&data[..], false).unwrap());
    let sized = deserializer.deserialize_frame(&data[..]).unwrap();
    assert_eq!(sized.size, data.len() - 8);
    assert_eq!(sized.frame.status(), 204);
    assert_eq!(sized.frame.version, Version::Http11);
    assert_eq!(sized.frame.body().as_slice(), b"abc");
    assert_eq!(sized.frame.headers.get("x-one").unwrap().as_bytes(), b"1");
    assert_eq!(sized.frame.headers.len(), 2);
}

#[test]
fn cut_off_response_is_an_error_at_the_end() {
    let mut deserializer = Http1ResponseDeserializer::new();
    let data = b"HTTP/1.1 200 OK\r\nContent-Length: 30\r\n\r\nabc";
    assert!(!deserializer.check_deserialize_frame(data, false).unwrap());
    let err = deserializer.check_deserialize_frame(data, true).unwrap_err();
    assert_eq!(err.kind(), ErrorKind::UnexpectedEof);
    assert_eq!(err.message, "http connection terminated before receiving full response");
}

#[test]
fn malformed_responses_are_errors() {
    let mut deserializer = Http1ResponseDeserializer::new();
    assert_eq!(
        deserializer.check_deserialize_frame(b"nonsense\r\n\r\n", false).unwrap_err().kind(),
        ErrorKind::InvalidData
    );
    let mut deserializer = Http1ResponseDeserializer::new();
    let err = deserializer
        .check_deserialize_frame(b"HTTP/1.1 200 OK\r\nContent-Length: many\r\n\r\n", false)
        .unwrap_err();
    assert_eq!(err.kind(), ErrorKind::InvalidData);
    assert_eq!(err.message, "content-length not a number");
    let mut deserializer = Http1ResponseDeserializer::new();
    let err = deserializer
        .check_deserialize_frame(b"HTTP/1.1 200 OK\r\nTransfer-Encoding: chunked\r\n\r\nzz\r\n\r\n", false)
        .unwrap_err();
    assert_eq!(err.kind(), ErrorKind::InvalidInput);
}

fn head(version: Option<u8>, code: Option<u16>, headers: &[(&str, &[u8])]) -> ResponseHead {
    ResponseHead {
        size: 10,
        version,
        code,
        headers: headers.iter().map(|(name, value)| Header { name: name.to_string(), value: value.to_vec() }).collect(),
    }
}

#[test]
fn head_decides_how_the_body_ends() {
    let chunked = head(Some(1), Some(200), &[("Transfer-ENCODING", b"Chunked"), ("content-length", b"5")]);
    assert_eq!(parse_body_info(&chunked).unwrap(), BodyInfo::new(10, BodyType::ChunkedTransfer));
    let length = head(Some(0), Some(200), &[("Content-Length", b"5")]);
    assert_eq!(parse_body_info(&length).unwrap(), BodyInfo::new(10, BodyType::ContentLength(5)));
    let on_close = head(Some(1), Some(200), &[("transfer-encoding", b"gzip")]);
    assert_eq!(parse_body_info(&on_close).unwrap(), BodyInfo::new(10, BodyType::OnClose));
    let none = head(Some(0), Some(200), &[]);
    assert_eq!(parse_body_info(&none).unwrap(), BodyInfo::new(10, BodyType::NoBody));
}

#[test]
fn head_fills_the_response() {
    let mut response = Response::new(Vec::new());
    parsed_into_response(&head(Some(0), Some(404), &[("A", b"1"), ("a", b"2")]), &mut response).unwrap();
    assert_eq!(response.status(), 404);
    assert_eq!(response.version, Version::Http10);
    assert_eq!(response.headers.get("a").unwrap().as_bytes(), b"2");
    assert_eq!(response.headers.len(), 1);

    let err = parsed_into_response(&head(Some(1), Some(99), &[]), &mut response).unwrap_err();
    assert_eq!(err.message, "response invalid status code '99'");
    let err = parsed_into_response(&head(Some(2), Some(200), &[]), &mut response).unwrap_err();
    assert_eq!(err.message, "response invalid version '2'");
    let err = parsed_into_response(&head(Some(1), Some(200), &[("a b", b"")]), &mut response).unwrap_err();
    assert_eq!(err.message, "response invalid header name 'a b'");
    let err = parsed_into_response(&head(Some(1), Some(200), &[("ok", b"\n")]), &mut response).unwrap_err();
    assert_eq!(err.message, "response invalid header value '[10]'");
    let err = parsed_into_response(&head(Some(1), Some(200), &[("ok", b"a\x7f")]), &mut response).unwrap_err();
    assert_eq!(err.message, "response invalid header value '[97, 127]'");
}

#[test]
fn too_many_headers_are_refused() {
    let names: Vec<String> = (0..33000).map(|i| format!("x-{i}")).collect();
    let headers: Vec<(&str, &[u8])> = names.iter().map(|x| (x.as_str(), &b"1"[..])).collect();
    let mut response = Response::new(Vec::new());
    parsed_into_response(&head(Some(1), Some(200), &headers[..6554]), &mut response).unwrap();
    assert_eq!(response.headers.len(), 6554);
    let mut response = Response::new(Vec::new());
    let r = parsed_into_response(&head(Some(1), Some(200), &headers), &mut response);
    assert_eq!(r.unwrap_err().message, "response has too many headers");
}

#[test]
fn body_is_taken_when_it_is_complete() {
    let data = b"headers...body and more";
    let length = BodyInfo::new(10, BodyType::ContentLength(4));
    assert_eq!(parse_body(&length, data, false).unwrap(), Some((b"body".to_vec(), 14)));
    let longer = BodyInfo::new(10, BodyType::ContentLength(14));
    assert_eq!(parse_body(&longer, data, true).unwrap(), None);
    let on_close = BodyInfo::new(10, BodyType::OnClose);
    assert_eq!(parse_body(&on_close, data, false).unwrap(), None);
    assert_eq!(parse_body(&on_close, data, true).unwrap(), Some((b"body and more".to_vec(), data.len())));
    let none = BodyInfo::new(10, BodyType::NoBody);
    assert_eq!(parse_body(&none, data, false).unwrap(), Some((Vec::new(), 10)));
    let chunked = BodyInfo::new(4, BodyType::ChunkedTransfer);
    let data = b"head3\r\nabc\r\n0\r\n\r\n";
    assert_eq!(parse_body(&chunked, data, false).unwrap(), Some((b"abc".to_vec(), data.len())));
    assert_eq!(parse_body(&chunked, &data[..data.len() - 1], false).unwrap(), None);
}

#[test]
fn end_of_the_last_chunk_ends_a_chunked_body() {
    let info = BodyInfo::new(4, BodyType::ChunkedTransfer);
    // the first chunk ends like the last one
    let whole: &[u8] = b"head7\r\nabc\r\n\r\n\r\n2;x=y\r\nde\r\n0\r\n\r\n";
    let body = b"abc\r\n\r\nde".to_vec();
    for end in 4..whole.len() {
        assert_eq!(parse_body(&info, &whole[..end], false).unwrap(), None);
        assert_eq!(parse_body(&info, &whole[..end], true).unwrap(), None);
    }
    for more in [&b""[..], b"HTTP/1.1 200", b"0\r\n\r\n", b"\r\n\r\n", &[0]] {
        let data = [whole, more].concat();
        assert_eq!(parse_body(&info, &data, false).unwrap(), Some((body.clone(), whole.len())));
    }
    // what is not in that coding is an error once the data ends as the coding does
    for invalid in [&b"headzz\r\n"[..], b"head3\r\nabcd\r\n", b"head1\r\na\r\nx\r\n"] {
        assert_eq!(parse_body(&info, invalid, false).unwrap(), None);
        assert_eq!(parse_body(&info, invalid, true).unwrap(), None);
        let ended = [invalid, b"\r\n"].concat();
        assert_eq!(parse_body(&info, &ended, false).unwrap_err().kind(), ErrorKind::InvalidInput);
    }
}

#[test]
fn invalid_chunks_are_reported_at_their_end() {
    let head = "HTTP/1.1 200 OK\r\ntransfer-encoding: chunked\r\n\r\nzz\r\n";
    let mut deserializer = Http1ResponseDeserializer::new();
    assert!(!deserializer.check_deserialize_frame(head.as_bytes(), false).unwrap());
    let err = deserializer.check_deserialize_frame(head.as_bytes(), true).unwrap_err();
    assert_eq!(err.kind(), ErrorKind::UnexpectedEof);
    let ended = format!("{head}\r\n");
    let err = deserializer.check_deserialize_frame(ended.as_bytes(), false).unwrap_err();
    assert_eq!(err.kind(), ErrorKind::InvalidInput);
}

#[test]
fn chunked_responses_follow_one_another() {
    let data = [CHUNKED.as_bytes(), ADDRESS.as_bytes()].concat();
    let mut deserializer = Http1ResponseDeserializer::new();
    assert!(deserializer.check_deserialize_frame(&data, false).unwrap());
    let sized = deserializer.deserialize_frame(&data).unwrap();
    assert_eq!(sized.size, CHUNKED.len());
    assert_eq!(sized.frame.body().as_slice(), b"<html><body>hi</body>\n</html>");
    let rest = &data[CHUNKED.len()..];
    assert!(deserializer.check_deserialize_frame(rest, false).unwrap());
    assert_eq!(deserializer.deserialize_frame(rest).unwrap().frame.body().as_slice(), b"203.0.113.42\n");
}

#[test]
fn request_is_read_from_a_new_buffer_at_once() {
    let mut serializer = Http1RequestSerializer::new();
    let mut buf = GrowableCircleBuf::new(4096).unwrap();
    let mut request = Request::get("http://example.com/a?b=c", "hi").unwrap();
    request.method = "POST".to_owned();
    request.headers.insert("x-k", "v".parse().unwrap());
    let outcome = serializer.serialize_frame(HttpRequest::from_request(request), &mut buf).unwrap();
    assert!(outcome.is_published());
    assert_eq!(
        buf.peek_read(),
        b"POST /a?b=c HTTP/1.1\r\nhost: example.com\r\nx-k: v\r\ncontent-length: 2\r\n\r\nhi"
    );
}

#[test]
fn decoded_chunks_are_taken_when_none_is_cut_off() {
    assert_eq!(parse_chunks(Ok((vec![1, 2], None, 4)), 20).unwrap(), Some((vec![1, 2], 17)));
    assert_eq!(parse_chunks(Ok((vec![1, 2], Some(4), 0)), 20).unwrap(), None);
    assert_eq!(parse_chunks(Err(0), 20).unwrap(), None);
    let err = parse_chunks(Err(3), 20).unwrap_err();
    assert_eq!(err.kind(), ErrorKind::InvalidInput);
    assert_eq!(err.message, "Error while decoding chunks");
}

#[test]
fn lines_bound_the_number_of_headers() {
    assert_eq!(count_max_headers(b""), 0);
    assert_eq!(count_max_headers(b"\r\n"), 1);
    assert_eq!(count_max_headers(b"a: b\r\nc: d\r\n\r\n"), 3);
    assert!(ends_with_ascii(b"abc", "bc"));
    assert!(!ends_with_ascii(b"abc", "ab"));
    assert!(!ends_with_ascii(b"c", "bc"));
}

#[test]
fn numbers_are_formatted_and_parsed() {
    assert_eq!(format_usize(0), b"0");
    assert_eq!(format_usize(4096), b"4096");
    assert_eq!(format_digits(65535), "65535");
    assert_eq!(parse_usize(b"4096"), Some(4096));
    assert_eq!(parse_usize(b"+7"), Some(7));
    assert_eq!(parse_usize(b""), None);
    assert_eq!(parse_usize(b"+"), None);
    assert_eq!(parse_usize(b"-1"), None);
    assert_eq!(parse_usize(b"12 "), None);
    assert_eq!(parse_usize(b"18446744073709551615"), Some(usize::MAX));
    assert_eq!(parse_usize(b"18446744073709551616"), None);
    for n in [0, 9, 10, 12345, usize::MAX] {
        assert_eq!(parse_usize(&format_usize(n)), Some(n));
    }
    for bytes in [&b""[..], &[7], &[0, 10, 255]] {
        assert_eq!(format_bytes(bytes), format!("{bytes:?}"));
    }
}

#[test]
fn request_is_serialized() {
    let mut request = Request::get("http://example.com:8080/path?query=1", b"hello".to_vec()).unwrap();
    request.method = "POST".to_owned();
    request.headers.insert("x-a", "1".parse().unwrap());
    let bytes = serialize_request(&request).unwrap();
    assert_eq!(
        String::from_utf8(bytes).unwrap(),
        "POST /path?query=1 HTTP/1.1\r\nhost: example.com\r\nx-a: 1\r\ncontent-length: 5\r\n\r\nhello"
    );
    let mut request = Request::get("http://example.com", Vec::new()).unwrap();
    request.version = Version::Http10;
    let bytes = serialize_request(&request).unwrap();
    assert_eq!(String::from_utf8(bytes).unwrap(), "GET / HTTP/1.0\r\nhost: example.com\r\n\r\n");
}

#[test]
fn faulty_requests_are_refused() {
    for (version, name) in [(Version::Http09, "HTTP/0.9"), (Version::Http2, "HTTP/2.0"), (Version::Http3, "HTTP/3.0")] {
        let mut request = Request::get("http://example.com", Vec::new()).unwrap();
        request.version = version;
        let err = serialize_request(&request).unwrap_err();
        assert_eq!(err.kind(), ErrorKind::InvalidData);
        assert_eq!(err.message, format!("unsupported http request version {name}"));
    }
    let request = Request::get("/path", Vec::new()).unwrap();
    assert_eq!(serialize_request(&request).unwrap_err().message, "missing host");
    let mut request = Request::get("http://example.com", Vec::new()).unwrap();
    request.headers.insert("x-a", http::HeaderValue::from_bytes(b"\xff").unwrap());
    assert_eq!(serialize_request(&request).unwrap_err().message, "could not convert header 'x-a' to string");
}

#[test]
fn refused_request_is_serialized_once() {
    let mut serializer = Http1RequestSerializer::new();
    let mut buf = GrowableCircleBuf::new(8).unwrap();
    assert!(buf.try_write(&vec![&[1, 2, 3][..]]).unwrap());
    let request = HttpRequest::from_request(Request::get("http://example.com", ()).unwrap());
    let serialized = match serializer.serialize_frame(request, &mut buf).unwrap() {
        PublishOutcome::Incomplete(HttpRequest::Serialized(bytes)) => bytes,
        _ => panic!("buffer is not empty"),
    };
    assert_eq!(serialized.as_slice(), b"GET / HTTP/1.1\r\nhost: example.com\r\n\r\n");
    buf.advance_read(3).unwrap();
    assert!(serializer.serialize_frame(HttpRequest::Serialized(serialized.clone()), &mut buf).unwrap().is_published());
    assert_eq!(buf.peek_read(), serialized.as_slice());
}

#[test]
fn uri_is_parsed_into_its_parts() {
    let uri = Uri::parse("https://user@example.com:444/a/b?c=d#e").unwrap();
    assert_eq!(uri.scheme, Some("https".to_owned()));
    assert_eq!(uri.host, Some("example.com".to_owned()));
    assert_eq!(uri.port, Some(444));
    assert_eq!(uri.path, "/a/b");
    assert_eq!(uri.query, Some("c=d".to_owned()));
    assert_eq!(uri.path_and_query, Some("/a/b?c=d".to_owned()));
    let uri = Uri::parse("http://example.com?c=d").unwrap();
    assert_eq!((uri.path.as_str(), uri.query.as_deref()), ("/", Some("c=d")));
    assert_eq!(uri.path_and_query.as_deref(), Some("?c=d"));
    let uri = Uri::parse("http://example.com").unwrap();
    assert_eq!((uri.path.as_str(), uri.path_and_query.as_deref()), ("/", Some("/")));
    assert_eq!(Uri::parse("example.com").unwrap().path_and_query, None);
    let err = Uri::parse("http://bad uri").err().unwrap();
    assert_eq!(err.kind(), ErrorKind::InvalidData);
    assert!(Request::get("http://bad uri", ()).is_err());
}

#[test]
fn schemes_decide_the_target() {
    assert_eq!(Scheme::Http.default_port(), 80);
    assert_eq!(Scheme::Https.default_port(), 443);
    assert_eq!(request_scheme(&None).unwrap(), Scheme::Http);
    assert_eq!(request_scheme(&Some("https".to_owned())).unwrap(), Scheme::Https);
    assert_eq!(request_scheme(&Some("ftp".to_owned())).unwrap_err().message, "bad http uri scheme");
    let target = connect_stream(Scheme::Https, Some("example.com"), Some(8443)).unwrap();
    assert_eq!((target.addr.as_str(), target.domain.as_deref()), ("example.com:8443", Some("example.com")));
    let target = client().connect("example.com", 8080, Scheme::Http);
    assert_eq!((target.addr.as_str(), target.domain.as_deref()), ("example.com:8080", None));
    assert_eq!(connect_stream(Scheme::Http, None, None).err().unwrap().message, "missing host");
    assert_eq!(client().request(Request::get("/x", ()).unwrap()).err().unwrap().message, "missing host");
    assert_eq!(
        client().request(Request::get("ftp://example.com", ()).unwrap()).err().unwrap().message,
        "bad http uri scheme"
    );
}

#[test]
fn client_keeps_its_setup() {
    let client: HttpClient<u8, u16> = HttpClient::new();
    assert!(client.tls_connector().is_none() && client.addr_resolver().is_none());
    let client = client.with_tls_connector(Arc::new(3)).with_addr_resolver(Arc::new(4));
    assert_eq!(client.tls_connector().as_deref(), Some(&3));
    assert_eq!(client.addr_resolver().as_deref(), Some(&4));
}

#[test]
fn bodies_become_bytes() {
    assert_eq!("abc".into_body(), b"abc");
    assert_eq!("h\u{e9}".to_owned().into_body(), b"h\xc3\xa9");
    assert_eq!(vec![1u8, 2].into_body(), vec![1, 2]);
    assert_eq!((&[3u8, 4][..]).into_body(), vec![3, 4]);
    assert_eq!(().into_body(), Vec::<u8>::new());
}
