//! Serialization of HTTP 1.x requests
use vstd::prelude::*;
use vstd::string::*;

use crate::buffer::GrowableCircleBuf;
use crate::error::{Error, ErrorKind};
use crate::frame::SerializeFrame;
use crate::http::decimal::format_usize;
use crate::http::headers::headers_list;
use crate::http::message::{HttpRequest, Request, Version};
use crate::PublishOutcome;

verus! {

/// The bytes of a text.
pub open spec fn utf8(text: Seq<char>) -> Seq<u8> {
    vstd::utf8::encode_utf8(text)
}

/// The line of a header, with the line break behind it.
pub open spec fn header_line(name: Seq<u8>, value: Seq<u8>) -> Seq<u8> {
    name + utf8(": "@) + value + utf8("\r\n"@)
}

/// The lines of header entries.
pub open spec fn header_lines(entries: Seq<(Seq<u8>, Seq<u8>)>) -> Seq<u8>
    decreases entries.len(),
{
    if entries.len() == 0 {
        Seq::empty()
    } else {
        header_lines(entries.drop_last()) + header_line(entries.last().0, entries.last().1)
    }
}

/// The start line of a request, with the line break behind it.
pub open spec fn request_line(request: crate::http::message::RequestView) -> Seq<u8> {
    utf8(request.method) + utf8(" "@) + utf8(request.uri.path) + match request.uri.query {
        Some(query) => utf8("?"@) + utf8(query),
        None => Seq::empty(),
    } + utf8(
        if request.version == Version::Http10 {
            " HTTP/1.0"@
        } else {
            " HTTP/1.1"@
        },
    ) + utf8("\r\n"@)
}

/// The bytes of a request to `host`: the start line, the host header, the headers, the length of the body if there is
/// one, an empty line and the body.
pub open spec fn request_bytes(request: crate::http::message::RequestView, host: Seq<char>) -> Seq<u8> {
    request_line(request) + header_line(utf8("host"@), utf8(host)) + header_lines(request.headers)
        + if request.body.len() > 0 {
        header_line(utf8("content-length"@), crate::http::decimal::decimal(request.body.len()))
    } else {
        Seq::empty()
    } + utf8("\r\n"@) + request.body
}

/// The name of the first header whose value is not text.
pub open spec fn first_not_text(entries: Seq<(Seq<u8>, Seq<u8>)>) -> Option<Seq<char>>
    decreases entries.len(),
{
    if entries.len() == 0 {
        None
    } else if !crate::http::headers::is_header_text(entries[0].1) {
        Some(vstd::utf8::decode_utf8(entries[0].0))
    } else {
        first_not_text(entries.drop_first())
    }
}

/// Why a request cannot be serialized, if it cannot: its version is not 1.0 or 1.1, it has no host, or the value of a
/// header is not text.
pub open spec fn request_fault(request: crate::http::message::RequestView) -> Option<Seq<char>> {
    if request.version == Version::Http09 {
        Some("unsupported http request version HTTP/0.9"@)
    } else if request.version == Version::Http2 {
        Some("unsupported http request version HTTP/2.0"@)
    } else if request.version == Version::Http3 {
        Some("unsupported http request version HTTP/3.0"@)
    } else if request.uri.host is None {
        Some("missing host"@)
    } else {
        match first_not_text(request.headers) {
            Some(name) => Some("could not convert header '"@ + name + "' to string"@),
            None => None,
        }
    }
}

fn is_text(bytes: &[u8]) -> (r: bool)
    ensures
        r == crate::http::headers::is_header_text(bytes@),
{
    let mut i: usize = 0;
    while i < bytes.len()
        invariant
            i <= bytes@.len(),
            forall|k: int| 0 <= k < i ==> 32 <= #[trigger] bytes@[k] < 127 || bytes@[k] == 9,
        decreases bytes@.len() - i,
    {
        let b: u8 = bytes[i];
        if !((32 <= b && b < 127) || b == 9) {
            return false;
        }
        i = i + 1;
    }
    true
}

/// Construct the HTTP/1.x payload of a request.
pub fn serialize_request(request: &Request<Vec<u8>>) -> (r: Result<Vec<u8>, Error>)
    ensures
        match request_fault(request@) {
            Some(message) => crate::error::fails(r, ErrorKind::InvalidData, message),
            None => r matches Ok(bytes) && bytes@ == request_bytes(request@, request@.uri.host->0),
        },
{
    // check version
    let version = match request.version {
        Version::Http10 => " HTTP/1.0",
        Version::Http11 => " HTTP/1.1",
        Version::Http09 => return Err(
            Error::new(ErrorKind::InvalidData, "unsupported http request version HTTP/0.9"),
        ),
        Version::Http2 => return Err(
            Error::new(ErrorKind::InvalidData, "unsupported http request version HTTP/2.0"),
        ),
        Version::Http3 => return Err(
            Error::new(ErrorKind::InvalidData, "unsupported http request version HTTP/3.0"),
        ),
    };
    let host = match &request.uri.host {
        Some(host) => host,
        None => return Err(Error::new(ErrorKind::InvalidData, "missing host")),
    };
    // construct HTTP/1.x payload
    let mut bytes = serialize_request_line(request, version);
    // host header
    push_header_line(&mut bytes, "host".as_bytes(), host.as_str().as_bytes());
    // request headers
    let headers = headers_list(&request.headers);
    push_header_lines(&mut bytes, &headers)?;
    if request.body.len() > 0 {
        // content length header
        let content_length = format_usize(request.body.len());
        push_header_line(&mut bytes, "content-length".as_bytes(), content_length.as_slice());
    } else {
        assert(bytes@ =~= bytes@ + Seq::<u8>::empty());
    }
    bytes.extend_from_slice("\r\n".as_bytes());
    bytes.extend_from_slice(request.body.as_slice());
    Ok(bytes)
}

/// Construct the start line of a request.
fn serialize_request_line(request: &Request<Vec<u8>>, version: &str) -> (r: Vec<u8>)
    requires
        version@ == if request.version == Version::Http10 {
            " HTTP/1.0"@
        } else {
            " HTTP/1.1"@
        },
    ensures
        r@ == request_line(request@),
{
    let mut bytes: Vec<u8> = Vec::new();
    bytes.extend_from_slice(request.method.as_str().as_bytes());
    assert(bytes@ =~= utf8(request@.method));
    bytes.extend_from_slice(" ".as_bytes());
    bytes.extend_from_slice(request.uri.path.as_str().as_bytes());
    let ghost start = bytes@;
    if let Some(query) = &request.uri.query {
        bytes.extend_from_slice("?".as_bytes());
        bytes.extend_from_slice(query.as_str().as_bytes());
        assert(bytes@ =~= start + (utf8("?"@) + utf8(query@)));
    } else {
        assert(bytes@ =~= start + Seq::<u8>::empty());
    }
    bytes.extend_from_slice(version.as_bytes());
    bytes.extend_from_slice("\r\n".as_bytes());
    bytes
}

/// Add the line of a header.
fn push_header_line(bytes: &mut Vec<u8>, name: &[u8], value: &[u8])
    ensures
        final(bytes)@ == old(bytes)@ + header_line(name@, value@),
{
    bytes.extend_from_slice(name);
    bytes.extend_from_slice(": ".as_bytes());
    bytes.extend_from_slice(value);
    bytes.extend_from_slice("\r\n".as_bytes());
    assert(bytes@ =~= old(bytes)@ + header_line(name@, value@));
}

/// Add the lines of headers whose values are all text.
fn push_header_lines(bytes: &mut Vec<u8>, headers: &Vec<(String, Vec<u8>)>) -> (r: Result<(), Error>)
    ensures
        match first_not_text(crate::http::headers::entries_view(headers@)) {
            Some(name) => crate::error::fails(
                r,
                ErrorKind::InvalidData,
                "could not convert header '"@ + name + "' to string"@,
            ),
            None => r is Ok && final(bytes)@ == old(bytes)@ + header_lines(
                crate::http::headers::entries_view(headers@),
            ),
        },
{
    let ghost entries = crate::http::headers::entries_view(headers@);
    let mut i: usize = 0;
    assert(bytes@ =~= bytes@ + header_lines(entries.take(0)));
    assert(entries.skip(0) =~= entries);
    while i < headers.len()
        invariant
            i <= headers@.len(),
            entries == crate::http::headers::entries_view(headers@),
            first_not_text(entries) == first_not_text(entries.skip(i as int)),
            bytes@ == old(bytes)@ + header_lines(entries.take(i as int)),
        decreases headers@.len() - i,
    {
        let entry = &headers[i];
        assert(entries.skip(i as int)[0] == (utf8(entry.0@), entry.1@));
        if !is_text(entry.1.as_slice()) {
            proof {
                vstd::utf8::encode_utf8_decode_utf8(entry.0@);
            }
            let mut message = "could not convert header '".to_owned();
            message.append(entry.0.as_str());
            message.append("' to string");
            return Err(Error::new(ErrorKind::InvalidData, message.as_str()));
        }
        push_header_line(bytes, entry.0.as_str().as_bytes(), entry.1.as_slice());
        proof {
            assert(entries.skip(i as int).drop_first() =~= entries.skip(i + 1));
            assert(entries.take(i + 1).drop_last() =~= entries.take(i as int));
            assert(bytes@ =~= old(bytes)@ + header_lines(entries.take(i + 1)));
        }
        i = i + 1;
    }
    assert(entries.take(i as int) =~= entries);
    Ok(())
}

/// A [`SerializeFrame`] impl for HTTP 1.x where [`SerializeFrame::SerializedFrame`] is an [`HttpRequest`].
pub struct Http1RequestSerializer {}

impl Http1RequestSerializer {
    pub fn new() -> (r: Self) {
        Self {  }
    }
}

/// The bytes of a request, or why there are none.
pub open spec fn serialized(request: HttpRequest) -> Result<Seq<u8>, Seq<char>> {
    match request {
        HttpRequest::Request(request) => match request_fault(request@) {
            Some(message) => Err(message),
            None => Ok(request_bytes(request@, request@.uri.host->0)),
        },
        HttpRequest::Serialized(bytes) => Ok(bytes@),
    }
}

impl SerializeFrame for Http1RequestSerializer {
    type SerializedFrame<'a> = HttpRequest;

    open spec fn serializes<'a>(
        &self,
        request: Self::SerializedFrame<'a>,
        buffer: &GrowableCircleBuf,
        post: &Self,
        post_buffer: &GrowableCircleBuf,
        r: Result<PublishOutcome<Self::SerializedFrame<'a>>, Error>,
    ) -> bool {
        match serialized(request) {
            Err(message) => {
                &&& crate::error::fails(r, ErrorKind::InvalidData, message)
                &&& *post_buffer == *buffer
            },
            Ok(bytes) => if buffer.accepts(bytes.len()) {
                &&& r matches Ok(outcome) && outcome is Published
                &&& buffer.writes(bytes, post_buffer)
            } else {
                &&& r matches Ok(PublishOutcome::Incomplete(HttpRequest::Serialized(rest))) && rest@
                    == bytes
                &&& *post_buffer == *buffer
            },
        }
    }

    fn serialize_frame<'a>(
        &mut self,
        request: Self::SerializedFrame<'a>,
        buffer: &mut GrowableCircleBuf,
    ) -> Result<PublishOutcome<Self::SerializedFrame<'a>>, Error> {
        let serialized_request = match request {
            HttpRequest::Request(request) => serialize_request(&request)?,
            HttpRequest::Serialized(serialized) => serialized,
        };
        let parts: Vec<&[u8]> = vec![serialized_request.as_slice()];
        proof {
            reveal_with_fuel(crate::buffer::joined, 2);
            assert(parts@.drop_last() =~= Seq::<&[u8]>::empty());
            assert(crate::buffer::joined(parts@) =~= serialized_request@);
            assert(serialized_request.len() <= usize::MAX);
        }
        // returned pending request
        if buffer.try_write(&parts)? {
            Ok(PublishOutcome::Published)
        } else {
            Ok(PublishOutcome::Incomplete(HttpRequest::Serialized(serialized_request)))
        }
    }
}

/// A request that could not be written as a whole is handed back with the bytes that it is: what is written when it is
/// retried is what would have been written at once.
pub proof fn retried_request_is_the_same(
    pre: Http1RequestSerializer,
    request: HttpRequest,
    buffer: GrowableCircleBuf,
    post: Http1RequestSerializer,
    post_buffer: GrowableCircleBuf,
    r: Result<PublishOutcome<HttpRequest>, Error>,
)
    requires
        pre.serializes(request, &buffer, &post, &post_buffer, r),
    ensures
        r matches Ok(PublishOutcome::Incomplete(rest)) ==> serialized(rest) == serialized(request),
{
}

/// A header that is added behind others has a line of its own behind theirs: its name, a colon and a space, its value, and
/// a line break. No header has no line.
pub proof fn each_header_has_its_line(entries: Seq<(Seq<u8>, Seq<u8>)>, name: Seq<u8>, value: Seq<u8>)
    ensures
        header_lines(Seq::empty()) == Seq::<u8>::empty(),
        header_lines(entries.push((name, value))) == header_lines(entries) + name + seq![58u8, 32] + value + seq![
            13u8,
            10,
        ],
{
    lemma_separators();
    assert(entries.push((name, value)).drop_last() =~= entries);
    assert(header_lines(entries.push((name, value))) =~= header_lines(entries) + name + seq![58u8, 32] + value + seq![
        13u8,
        10,
    ]);
}

/// The bytes of the texts between the parts of a request.
proof fn lemma_separators()
    ensures
        utf8(": "@) == seq![58u8, 32],
        utf8("\r\n"@) == seq![13u8, 10],
        utf8(" "@) == seq![32u8],
        utf8("?"@) == seq![63u8],
{
    reveal_strlit(": ");
    reveal_strlit("\r\n");
    reveal_strlit(" ");
    reveal_strlit("?");
    vstd::utf8::is_ascii_chars_encode_utf8(": "@);
    vstd::utf8::is_ascii_chars_encode_utf8("\r\n"@);
    vstd::utf8::is_ascii_chars_encode_utf8(" "@);
    vstd::utf8::is_ascii_chars_encode_utf8("?"@);
    assert(utf8(": "@) =~= seq![58u8, 32]);
    assert(utf8("\r\n"@) =~= seq![13u8, 10]);
    assert(utf8(" "@) =~= seq![32u8]);
    assert(utf8("?"@) =~= seq![63u8]);
}

/// Where the first line break is, or the number of bytes when there is none.
pub open spec fn line_end(bytes: Seq<u8>) -> nat
    decreases bytes.len(),
{
    if bytes.len() < 2 {
        bytes.len()
    } else if bytes[0] == 13 && bytes[1] == 10 {
        0
    } else {
        1 + line_end(bytes.drop_first())
    }
}

/// What a server reads of the bytes of a message: the lines up to the first empty one, and what is behind it.
pub open spec fn read_message(bytes: Seq<u8>) -> (Seq<Seq<u8>>, Seq<u8>)
    decreases bytes.len(),
{
    let end = line_end(bytes) as int;
    if end + 2 > bytes.len() {
        (Seq::empty(), bytes)
    } else if end == 0 {
        (Seq::empty(), bytes.skip(2))
    } else {
        let (lines, body) = read_message(bytes.skip(end + 2));
        (seq![bytes.take(end)] + lines, body)
    }
}

/// Whether bytes are in one line.
pub open spec fn in_one_line(bytes: Seq<u8>) -> bool {
    forall|i: int| 0 <= i < bytes.len() ==> #[trigger] bytes[i] != 13
}

/// A line ends at the first line break behind it.
proof fn lemma_line_end(line: Seq<u8>, rest: Seq<u8>)
    requires
        in_one_line(line),
    ensures
        line_end(line + seq![13u8, 10] + rest) == line.len(),
    decreases line.len(),
{
    let bytes = line + seq![13u8, 10] + rest;
    if line.len() > 0 {
        assert forall|i: int| 0 <= i < line.drop_first().len() implies #[trigger] line.drop_first()[i] != 13 by {
            assert(line.drop_first()[i] == line[i + 1]);
        }
        lemma_line_end(line.drop_first(), rest);
        assert(bytes.drop_first() =~= line.drop_first() + seq![13u8, 10] + rest);
        assert(bytes[0] == line[0]);
    }
}

/// A line that is not empty is the first that is read, and the others are those that are read of what is behind it.
proof fn lemma_read_line(line: Seq<u8>, rest: Seq<u8>)
    requires
        in_one_line(line),
        line.len() > 0,
    ensures
        read_message(line + seq![13u8, 10] + rest) == (
            seq![line] + read_message(rest).0,
            read_message(rest).1,
        ),
{
    let bytes = line + seq![13u8, 10] + rest;
    lemma_line_end(line, rest);
    assert(bytes.take(line.len() as int) =~= line);
    assert(bytes.skip(line.len() as int + 2) =~= rest);
}

/// The lines of headers without the line breaks.
spec fn shown_headers(entries: Seq<(Seq<u8>, Seq<u8>)>) -> Seq<Seq<u8>> {
    entries.map_values(|e: (Seq<u8>, Seq<u8>)| e.0 + seq![58u8, 32] + e.1)
}

proof fn lemma_read_headers(entries: Seq<(Seq<u8>, Seq<u8>)>, rest: Seq<u8>)
    requires
        forall|i: int|
            0 <= i < entries.len() ==> in_one_line((#[trigger] entries[i]).0) && in_one_line(entries[i].1),
    ensures
        read_message(header_lines(entries) + rest) == (
            shown_headers(entries) + read_message(rest).0,
            read_message(rest).1,
        ),
    decreases entries.len(),
{
    if entries.len() == 0 {
        assert(header_lines(entries) + rest =~= rest);
        assert(shown_headers(entries) + read_message(rest).0 =~= read_message(rest).0);
    } else {
        let e = entries.last();
        assert(e == entries[entries.len() - 1]);
        let line = e.0 + seq![58u8, 32] + e.1;
        let tail = line + seq![13u8, 10] + rest;
        assert(entries =~= entries.drop_last().push((e.0, e.1)));
        each_header_has_its_line(entries.drop_last(), e.0, e.1);
        assert(header_lines(entries) + rest =~= header_lines(entries.drop_last()) + tail);
        assert forall|i: int| 0 <= i < entries.drop_last().len() implies in_one_line(
            (#[trigger] entries.drop_last()[i]).0,
        ) && in_one_line(entries.drop_last()[i].1) by {
            assert(entries.drop_last()[i] == entries[i]);
        }
        lemma_read_headers(entries.drop_last(), tail);
        assert forall|i: int| 0 <= i < line.len() implies #[trigger] line[i] != 13 by {
            if i < e.0.len() {
                assert(line[i] == e.0[i]);
            } else if i >= e.0.len() + 2 {
                assert(line[i] == e.1[i - e.0.len() - 2]);
            }
        }
        lemma_read_line(line, rest);
        assert(shown_headers(entries) =~= shown_headers(entries.drop_last()).push(line));
        assert(shown_headers(entries) + read_message(rest).0 =~= shown_headers(entries.drop_last()) + (seq![line]
            + read_message(rest).0));
    }
}

/// Digits are in one line.
proof fn lemma_decimal_in_one_line(n: nat)
    ensures
        in_one_line(crate::http::decimal::decimal(n)),
{
    crate::http::decimal::last_digit_is_remainder(n);
    let bytes = crate::http::decimal::decimal(n);
    assert forall|i: int| 0 <= i < bytes.len() implies #[trigger] bytes[i] != 13 by {
        let c = crate::http::decimal::digits(n)[i];
        assert('0' <= c <= '9');
        assert(c as u8 == bytes[i]);
    }
}

/// A server reads a request back: the first line is the method, the path with the query, and the version; then comes the
/// host, a line for each header in their order, and, if there is a body, its length; and behind the empty line is the body.
/// The parts of the request are taken to have no line breaks.
pub proof fn request_is_read_back(request: crate::http::message::RequestView, host: Seq<char>)
    requires
        in_one_line(utf8(request.method)),
        in_one_line(utf8(request.uri.path)),
        request.uri.query matches Some(query) ==> in_one_line(utf8(query)),
        in_one_line(utf8(host)),
        forall|i: int|
            0 <= i < request.headers.len() ==> in_one_line((#[trigger] request.headers[i]).0) && in_one_line(
                request.headers[i].1,
            ),
        request.version == Version::Http10 || request.version == Version::Http11,
    ensures
        ({
            let (lines, body) = read_message(request_bytes(request, host));
            let target = match request.uri.query {
                Some(query) => utf8(request.uri.path) + seq!['?' as u8] + utf8(query),
                None => utf8(request.uri.path),
            };
            let minor = if request.version == Version::Http10 {
                '0' as u8
            } else {
                '1' as u8
            };
            let n = request.headers.len() as int;
            &&& body == request.body
            &&& lines.len() == 2 + n + if request.body.len() > 0 {
                1int
            } else {
                0int
            }
            &&& lines[0] == utf8(request.method) + seq![' ' as u8] + target + utf8(" HTTP/1."@).push(minor)
            &&& lines[1] == utf8("host: "@) + utf8(host)
            &&& forall|i: int|
                0 <= i < n ==> #[trigger] lines[2 + i] == request.headers[i].0 + utf8(": "@) + request.headers[i].1
            &&& request.body.len() > 0 ==> lines[2 + n] == utf8("content-length: "@)
                + crate::http::decimal::decimal(request.body.len())
        }),
{
    let crlf = seq![13u8, 10];
    let start = start_line(request);
    let host_line = utf8("host: "@) + utf8(host);
    let end = head_end(request.body);
    lemma_separators();
    lemma_texts();
    lemma_request_layout(request, host);
    lemma_start_line(request);
    lemma_joined_in_one_line(utf8("host: "@), utf8(host));
    lemma_read_line(start, host_line + crlf + (header_lines(request.headers) + end));
    lemma_read_line(host_line, header_lines(request.headers) + end);
    lemma_read_headers(request.headers, end);
    lemma_read_end(request.body);
    let (lines, body) = read_message(request_bytes(request, host));
    let shown = shown_headers(request.headers);
    assert(lines =~= seq![start] + (seq![host_line] + (shown + read_message(end).0)));
    assert forall|i: int| 0 <= i < request.headers.len() implies #[trigger] lines[2 + i] == request.headers[i].0 + utf8(
        ": "@,
    ) + request.headers[i].1 by {
        assert(lines[2 + i] == shown[i]);
    }
    if request.body.len() > 0 {
        assert(lines[2 + request.headers.len() as int] == read_message(end).0[0]);
    }
}

/// The start line of a request without the line break.
spec fn start_line(request: crate::http::message::RequestView) -> Seq<u8> {
    let target = match request.uri.query {
        Some(query) => utf8(request.uri.path) + seq!['?' as u8] + utf8(query),
        None => utf8(request.uri.path),
    };
    let minor = if request.version == Version::Http10 {
        '0' as u8
    } else {
        '1' as u8
    };
    utf8(request.method) + seq![' ' as u8] + target + utf8(" HTTP/1."@).push(minor)
}

/// What is behind the headers of a request.
spec fn head_end(body: Seq<u8>) -> Seq<u8> {
    let last = seq![13u8, 10] + body;
    if body.len() > 0 {
        utf8("content-length: "@) + crate::http::decimal::decimal(body.len()) + seq![13u8, 10] + last
    } else {
        last
    }
}

proof fn lemma_texts()
    ensures
        utf8("host"@) + utf8(": "@) == utf8("host: "@),
        utf8("content-length"@) + utf8(": "@) == utf8("content-length: "@),
        utf8(" HTTP/1.0"@) == utf8(" HTTP/1."@).push('0' as u8),
        utf8(" HTTP/1.1"@) == utf8(" HTTP/1."@).push('1' as u8),
        in_one_line(utf8("host: "@)),
        in_one_line(utf8("content-length: "@)),
        in_one_line(utf8(" HTTP/1."@)),
        utf8("host: "@).len() > 0,
        utf8("content-length: "@).len() > 0,
{
    lemma_separators();
    reveal_strlit(" HTTP/1.0");
    reveal_strlit(" HTTP/1.1");
    reveal_strlit(" HTTP/1.");
    reveal_strlit("host");
    reveal_strlit("host: ");
    reveal_strlit("content-length");
    reveal_strlit("content-length: ");
    vstd::utf8::is_ascii_chars_encode_utf8(" HTTP/1.0"@);
    vstd::utf8::is_ascii_chars_encode_utf8(" HTTP/1.1"@);
    vstd::utf8::is_ascii_chars_encode_utf8(" HTTP/1."@);
    vstd::utf8::is_ascii_chars_encode_utf8("host"@);
    vstd::utf8::is_ascii_chars_encode_utf8("host: "@);
    vstd::utf8::is_ascii_chars_encode_utf8("content-length"@);
    vstd::utf8::is_ascii_chars_encode_utf8("content-length: "@);
    assert(utf8("host"@) + utf8(": "@) =~= utf8("host: "@));
    assert(utf8("content-length"@) + utf8(": "@) =~= utf8("content-length: "@));
    assert(utf8(" HTTP/1.0"@) =~= utf8(" HTTP/1."@).push('0' as u8));
    assert(utf8(" HTTP/1.1"@) =~= utf8(" HTTP/1."@).push('1' as u8));
}

proof fn lemma_request_layout(request: crate::http::message::RequestView, host: Seq<char>)
    requires
        request.version == Version::Http10 || request.version == Version::Http11,
    ensures
        request_bytes(request, host) == start_line(request) + seq![13u8, 10] + (utf8("host: "@) + utf8(host) + seq![
            13u8,
            10,
        ] + (header_lines(request.headers) + head_end(request.body))),
{
    lemma_separators();
    lemma_texts();
    let crlf = seq![13u8, 10];
    let length = crate::http::decimal::decimal(request.body.len());
    assert(request_line(request) =~= start_line(request) + crlf);
    assert(header_line(utf8("host"@), utf8(host)) =~= utf8("host: "@) + utf8(host) + crlf);
    assert(header_line(utf8("content-length"@), length) =~= utf8("content-length: "@) + length + crlf);
    let host_part = utf8("host: "@) + utf8(host) + crlf;
    let lines = header_lines(request.headers);
    if request.body.len() > 0 {
        let length_part = utf8("content-length: "@) + length + crlf;
        assert(request_bytes(request, host) =~= start_line(request) + crlf + (host_part + (lines + (length_part + (crlf
            + request.body)))));
    } else {
        assert(request_bytes(request, host) =~= start_line(request) + crlf + (host_part + (lines + (crlf
            + request.body))));
    }
}

proof fn lemma_start_line(request: crate::http::message::RequestView)
    requires
        in_one_line(utf8(request.method)),
        in_one_line(utf8(request.uri.path)),
        request.uri.query matches Some(query) ==> in_one_line(utf8(query)),
    ensures
        in_one_line(start_line(request)),
        start_line(request).len() > 0,
{
    lemma_texts();
    let target = match request.uri.query {
        Some(query) => utf8(request.uri.path) + seq!['?' as u8] + utf8(query),
        None => utf8(request.uri.path),
    };
    let minor = if request.version == Version::Http10 {
        '0' as u8
    } else {
        '1' as u8
    };
    if let Some(query) = request.uri.query {
        lemma_joined_in_one_line(utf8(request.uri.path), seq!['?' as u8]);
        lemma_joined_in_one_line(utf8(request.uri.path) + seq!['?' as u8], utf8(query));
    }
    lemma_joined_in_one_line(utf8(" HTTP/1."@), seq![minor]);
    assert(utf8(" HTTP/1."@) + seq![minor] =~= utf8(" HTTP/1."@).push(minor));
    lemma_joined_in_one_line(utf8(request.method), seq![' ' as u8]);
    lemma_joined_in_one_line(utf8(request.method) + seq![' ' as u8], target);
    lemma_joined_in_one_line(utf8(request.method) + seq![' ' as u8] + target, utf8(" HTTP/1."@).push(minor));
}

proof fn lemma_read_end(body: Seq<u8>)
    ensures
        read_message(head_end(body)) == (
            if body.len() > 0 {
                seq![utf8("content-length: "@) + crate::http::decimal::decimal(body.len())]
            } else {
                Seq::<Seq<u8>>::empty()
            },
            body,
        ),
{
    let last = seq![13u8, 10] + body;
    assert(line_end(last) == 0);
    assert(last.skip(2) =~= body);
    assert(read_message(last) == (Seq::<Seq<u8>>::empty(), body));
    if body.len() > 0 {
        let line = utf8("content-length: "@) + crate::http::decimal::decimal(body.len());
        lemma_texts();
        lemma_decimal_in_one_line(body.len());
        lemma_joined_in_one_line(utf8("content-length: "@), crate::http::decimal::decimal(body.len()));
        lemma_read_line(line, last);
        assert(seq![line] + Seq::<Seq<u8>>::empty() =~= seq![line]);
    }
}

proof fn lemma_joined_in_one_line(a: Seq<u8>, b: Seq<u8>)
    requires
        in_one_line(a),
        in_one_line(b),
    ensures
        in_one_line(a + b),
{
    assert forall|i: int| 0 <= i < (a + b).len() implies #[trigger] (a + b)[i] != 13 by {
        if i < a.len() {
            assert((a + b)[i] == a[i]);
        } else {
            assert((a + b)[i] == b[i - a.len()]);
        }
    }
}

/// The first header whose value is not text is the one that is named, and there is none when all are text.
proof fn lemma_first_not_text(entries: Seq<(Seq<u8>, Seq<u8>)>)
    ensures
        match first_not_text(entries) {
            Some(name) => exists|i: int|
                0 <= i < entries.len() && name == vstd::utf8::decode_utf8((#[trigger] entries[i]).0)
                    && !crate::http::headers::is_header_text(entries[i].1) && forall|k: int|
                    0 <= k < i ==> crate::http::headers::is_header_text((#[trigger] entries[k]).1),
            None => forall|k: int|
                0 <= k < entries.len() ==> crate::http::headers::is_header_text((#[trigger] entries[k]).1),
        },
    decreases entries.len(),
{
    if entries.len() > 0 {
        if crate::http::headers::is_header_text(entries[0].1) {
            let rest = entries.drop_first();
            lemma_first_not_text(rest);
            assert forall|k: int| 0 < k < entries.len() implies entries[k] == #[trigger] rest[k - 1] by {}
            match first_not_text(rest) {
                Some(name) => {
                    let i = choose|i: int|
                        0 <= i < rest.len() && name == vstd::utf8::decode_utf8((#[trigger] rest[i]).0)
                            && !crate::http::headers::is_header_text(rest[i].1) && forall|k: int|
                            0 <= k < i ==> crate::http::headers::is_header_text((#[trigger] rest[k]).1);
                    assert(entries[i + 1] == rest[i]);
                    assert forall|k: int| 0 <= k < i + 1 implies crate::http::headers::is_header_text(
                        (#[trigger] entries[k]).1,
                    ) by {
                        if k > 0 {
                            assert(entries[k] == rest[k - 1]);
                        }
                    }
                },
                None => {
                    assert forall|k: int| 0 <= k < entries.len() implies crate::http::headers::is_header_text(
                        (#[trigger] entries[k]).1,
                    ) by {
                        if k > 0 {
                            assert(entries[k] == rest[k - 1]);
                        }
                    }
                },
            }
        } else {
            assert(vstd::utf8::decode_utf8(entries[0].0) == first_not_text(entries)->0);
        }
    }
}

/// A request is serialized if and only if its version is 1.0 or 1.1, it has a host, and every byte of a header value is a
/// visible ASCII character, a space or a tab. Otherwise it is said what is wrong first.
pub proof fn only_valid_requests_are_serialized(request: crate::http::message::RequestView)
    ensures
        request_fault(request) is None <==> {
            &&& request.version == Version::Http10 || request.version == Version::Http11
            &&& request.uri.host is Some
            &&& forall|i: int, k: int|
                0 <= i < request.headers.len() && 0 <= k < request.headers[i].1.len() ==> ' ' as u8
                    <= #[trigger] request.headers[i].1[k] <= '~' as u8 || request.headers[i].1[k] == '\t' as u8
        },
        request.version == Version::Http2 ==> request_fault(request) == Some(
            "unsupported http request version HTTP/2.0"@,
        ),
        request.version == Version::Http3 ==> request_fault(request) == Some(
            "unsupported http request version HTTP/3.0"@,
        ),
        request.version == Version::Http09 ==> request_fault(request) == Some(
            "unsupported http request version HTTP/0.9"@,
        ),
        request.version == Version::Http11 && request.uri.host is None ==> request_fault(request) == Some(
            "missing host"@,
        ),
{
    lemma_first_not_text(request.headers);
    match first_not_text(request.headers) {
        Some(name) => {
            let i = choose|i: int|
                0 <= i < request.headers.len() && name == vstd::utf8::decode_utf8((#[trigger] request.headers[i]).0)
                    && !crate::http::headers::is_header_text(request.headers[i].1);
            let k = choose|k: int|
                0 <= k < request.headers[i].1.len() && !(32 <= #[trigger] request.headers[i].1[k] < 127
                    || request.headers[i].1[k] == 9);
            assert(!(32 <= request.headers[i].1[k] < 127 || request.headers[i].1[k] == 9));
        },
        None => {
            assert forall|i: int, k: int|
                0 <= i < request.headers.len() && 0 <= k < request.headers[i].1.len() implies ' ' as u8
                <= #[trigger] request.headers[i].1[k] <= '~' as u8 || request.headers[i].1[k] == '\t' as u8 by {
                assert(crate::http::headers::is_header_text(request.headers[i].1));
            }
        },
    }
}

/// A request that is published is behind all unsent bytes as a whole, and one that is refused or has to wait changes
/// nothing of them. It waits only when there is no space for it, and an empty buffer has space for every request.
pub proof fn request_is_written_whole(
    pre: Http1RequestSerializer,
    request: HttpRequest,
    buffer: GrowableCircleBuf,
    post: Http1RequestSerializer,
    post_buffer: GrowableCircleBuf,
    r: Result<PublishOutcome<HttpRequest>, Error>,
)
    requires
        pre.serializes(request, &buffer, &post, &post_buffer, r),
    ensures
        match r {
            Ok(PublishOutcome::Published) => post_buffer.pending() == buffer.pending() + match request {
                HttpRequest::Request(x) => request_bytes(x@, x@.uri.host->0),
                HttpRequest::Serialized(bytes) => bytes@,
            },
            _ => post_buffer == buffer,
        },
        r is Err <==> (request matches HttpRequest::Request(x) && request_fault(x@) is Some),
        r matches Err(e) ==> e.kind == ErrorKind::InvalidData && e.message@ == request_fault(request->Request_0@)->0,
        buffer.pending().len() == 0 && r is Ok ==> r->Ok_0 is Published,
        r is Ok ==> (r->Ok_0 is Published <==> buffer.accepts(
            match request {
                HttpRequest::Request(x) => request_bytes(x@, x@.uri.host->0).len(),
                HttpRequest::Serialized(bytes) => bytes@.len(),
            },
        )),
        r matches Ok(PublishOutcome::Incomplete(rest)) ==> rest matches HttpRequest::Serialized(bytes) && bytes@
            == match request {
            HttpRequest::Request(x) => request_bytes(x@, x@.uri.host->0),
            HttpRequest::Serialized(bytes) => bytes@,
        },
{
}

} // verus!
