//! Deserialization of HTTP 1.x responses
use std::io::Read;

use vstd::prelude::*;
use vstd::slice::{slice_subrange, slice_to_vec};
use vstd::string::*;

use crate::error::{Error, ErrorKind};
use crate::frame::{DeserializeFrame, SizedFrame};
use crate::http::decimal::{format_bytes, format_digits, parse_usize};
use crate::http::headers::{headers_try_insert, is_name, is_value};
use crate::http::message::{Response, Version};

verus! {

/// A header of a response as it was received.
pub struct Header {
    pub name: String,
    pub value: Vec<u8>,
}

/// The status line and the headers of a response, and how many bytes they took.
pub struct ResponseHead {
    pub size: usize,
    pub version: Option<u8>,
    pub code: Option<u16>,
    pub headers: Vec<Header>,
}

/// The status line and the headers of a response as mathematical values.
pub struct HeadView {
    pub size: nat,
    pub version: Option<u8>,
    pub code: Option<u16>,
    pub headers: Seq<(Seq<char>, Seq<u8>)>,
}

/// The names and values of headers.
pub open spec fn headers_view(headers: Seq<Header>) -> Seq<(Seq<char>, Seq<u8>)> {
    headers.map_values(|h: Header| (h.name@, h.value@))
}

impl View for ResponseHead {
    type V = HeadView;

    open spec fn view(&self) -> HeadView {
        HeadView {
            size: self.size as nat,
            version: self.version,
            code: self.code,
            headers: headers_view(self.headers@),
        }
    }
}

/// What the `httparse` crate makes of data that starts with a response, with space for that many headers: a head,
/// nothing yet when the data ends before the head does, or the name of an error.
pub uninterp spec fn httparse_response(data: Seq<u8>, max_headers: nat) -> Result<
    Option<HeadView>,
    Seq<char>,
>;

/// [`httparse::Response::parse`] parses the head of a response. The bytes of the head are among those of the data.
#[verifier::external_body]
fn parse_head(data: &[u8], max_headers: usize) -> (r: Result<Option<ResponseHead>, String>)
    requires
        max_headers <= data@.len(),
    ensures
        match r {
            Ok(Some(head)) => httparse_response(data@, max_headers as nat) == Ok::<_, Seq<char>>(
                Some(head@),
            ) && head.size <= data@.len(),
            Ok(None) => httparse_response(data@, max_headers as nat) == Ok::<
                Option<HeadView>,
                Seq<char>,
            >(None),
            Err(name) => httparse_response(data@, max_headers as nat) == Err::<Option<HeadView>, _>(
                name@,
            ),
        },
{
    let mut headers = vec![httparse::EMPTY_HEADER; max_headers];
    let mut parsed = httparse::Response::new(&mut headers);
    match parsed.parse(data) {
        Ok(httparse::Status::Complete(size)) => Ok(Some(ResponseHead {
            size,
            version: parsed.version,
            code: parsed.code,
            headers: parsed.headers.iter().map(|h| Header { name: h.name.to_owned(), value: h.value.to_vec() }).collect(),
        })),
        Ok(httparse::Status::Partial) => Ok(None),
        Err(err) => Err(format!("{err:?}")),
    }
}

/// What the `chunked_transfer` crate decodes of data in chunked transfer coding: the decoded bytes, the size of what is
/// missing of the last chunk, if it is cut off, and the number of bytes of the data that were not looked at; or that number
/// alone when the decoder fails.
pub uninterp spec fn decoded_chunks(data: Seq<u8>) -> Result<(Seq<u8>, Option<usize>, nat), nat>;

/// [`chunked_transfer::Decoder`] reads data to the end of the coding. What it leaves of the data is no more than the
/// data, and is not looked at: other data that starts with the bytes of a coding that ended is decoded alike.
#[verifier::external_body]
fn decode_chunks(data: &[u8]) -> (r: Result<(Vec<u8>, Option<usize>, usize), usize>)
    ensures
        match r {
            Ok(x) => decoded_chunks(data@) == Ok::<_, nat>((x.0@, x.1, x.2 as nat)) && x.2
                <= data@.len(),
            Err(rest) => decoded_chunks(data@) == Err::<(Seq<u8>, Option<usize>, nat), _>(rest as nat)
                && rest <= data@.len(),
        },
        (r matches Ok((body, None, rest)) ==> forall|other: Seq<u8>|
            data@.take(data@.len() - rest).is_prefix_of(other) ==> (#[trigger] decoded_chunks(other) matches Ok(x)
                && x == (body@, None::<usize>, (other.len() - (data@.len() - rest)) as nat))),
{
    let mut body = Vec::new();
    let mut decoder = chunked_transfer::Decoder::new(data);
    let result = decoder.read_to_end(&mut body);
    let remaining = decoder.remaining_chunks_size();
    let rest = decoder.into_inner().len();
    result.map(|_| (body, remaining, rest)).map_err(|_| rest)
}

/// [`::http::StatusCode`] takes the codes from 100 to 999.
#[verifier::external_body]
fn is_status_code(code: u16) -> (r: bool)
    ensures
        r == (100 <= code < 1000),
{
    ::http::StatusCode::from_u16(code).is_ok()
}

/// How many times a carriage return is followed by a line feed.
pub open spec fn line_breaks(data: Seq<u8>) -> nat
    decreases data.len(),
{
    if data.len() < 2 {
        0
    } else {
        line_breaks(data.drop_last()) + if data[data.len() - 2] == 13 && data.last() == 10 {
            1nat
        } else {
            0nat
        }
    }
}

/// The most headers that a payload can have: as many as it has line breaks.
pub fn count_max_headers(payload: &[u8]) -> (r: usize)
    ensures
        r == line_breaks(payload@),
        r <= payload@.len(),
{
    if payload.len() == 0 {
        return 0;
    }
    let mut count: usize = 0;
    let mut i: usize = 0;
    while i < payload.len() - 1
        invariant
            payload@.len() > 0,
            i <= payload@.len() - 1,
            count == line_breaks(payload@.take(i + 1)),
            count <= i,
        decreases payload@.len() - i,
    {
        assert(payload@.take(i + 2).drop_last() =~= payload@.take(i + 1));
        if payload[i] == 13 && payload[i + 1] == 10 {
            count = count + 1;
        }
        i = i + 1;
    }
    assert(payload@.take(i + 1) =~= payload@);
    count
}

/// Whether the buffer ends with the given text.
pub fn ends_with_ascii(buf: &[u8], ends_with: &str) -> (r: bool)
    ensures
        r == vstd::utf8::encode_utf8(ends_with@).is_suffix_of(buf@),
{
    let end = ends_with.as_bytes();
    if buf.len() < end.len() {
        return false;
    }
    let mut i: usize = 0;
    while i < end.len()
        invariant
            i <= end@.len() <= buf@.len(),
            end@ == vstd::utf8::encode_utf8(ends_with@),
            forall|k: int|
                end@.len() - i <= k < end@.len() ==> #[trigger] end@[k] == buf@[buf@.len() - end@.len() + k],
        decreases end@.len() - i,
    {
        if buf[buf.len() - i - 1] != end[end.len() - i - 1] {
            assert(buf@.subrange(buf@.len() - end@.len(), buf@.len() as int)[end@.len() - i - 1]
                != end@[end@.len() - i - 1]);
            return false;
        }
        i = i + 1;
    }
    assert(buf@.subrange(buf@.len() - end@.len(), buf@.len() as int) =~= end@);
    true
}

/// Whether bytes are equal when upper and lower case letters are taken to be the same.
pub open spec fn same_letters(a: Seq<u8>, b: Seq<u8>) -> bool {
    crate::http::headers::lowercase(a) == crate::http::headers::lowercase(b)
}

fn lower_byte(b: u8) -> (r: u8)
    ensures
        r == crate::http::headers::lower(b),
{
    if 65 <= b && b <= 90 {
        b + 32
    } else {
        b
    }
}

pub(crate) fn eq_ignore_ascii_case(a: &[u8], b: &[u8]) -> (r: bool)
    ensures
        r == same_letters(a@, b@),
{
    let ghost la = crate::http::headers::lowercase(a@);
    let ghost lb = crate::http::headers::lowercase(b@);
    if a.len() != b.len() {
        assert(la.len() != lb.len());
        return false;
    }
    let mut i: usize = 0;
    while i < a.len()
        invariant
            i <= a@.len(),
            a@.len() == b@.len(),
            la == crate::http::headers::lowercase(a@),
            lb == crate::http::headers::lowercase(b@),
            forall|k: int| 0 <= k < i ==> la[k] == lb[k],
        decreases a@.len() - i,
    {
        if lower_byte(a[i]) != lower_byte(b[i]) {
            assert(la[i as int] != lb[i as int]);
            return false;
        }
        i = i + 1;
    }
    assert(la =~= lb);
    true
}

/// The value of the first header of that name, whatever the case of its letters.
pub open spec fn header_value(headers: Seq<(Seq<char>, Seq<u8>)>, name: Seq<char>) -> Option<Seq<u8>>
    decreases headers.len(),
{
    if headers.len() == 0 {
        None
    } else if same_letters(
        vstd::utf8::encode_utf8(headers[0].0),
        vstd::utf8::encode_utf8(name),
    ) {
        Some(headers[0].1)
    } else {
        header_value(headers.drop_first(), name)
    }
}

fn find_header<'a>(headers: &'a Vec<Header>, name: &str) -> (r: Option<&'a Vec<u8>>)
    ensures
        match r {
            Some(value) => header_value(headers_view(headers@), name@) == Some(value@),
            None => header_value(headers_view(headers@), name@) is None,
        },
{
    let ghost view = headers_view(headers@);
    let mut i: usize = 0;
    assert(view.skip(0) =~= view);
    while i < headers.len()
        invariant
            i <= headers@.len(),
            view == headers_view(headers@),
            header_value(view, name@) == header_value(view.skip(i as int), name@),
        decreases headers@.len() - i,
    {
        assert(view.skip(i as int)[0] == (headers@[i as int].name@, headers@[i as int].value@));
        if eq_ignore_ascii_case(headers[i].name.as_str().as_bytes(), name.as_bytes()) {
            return Some(&headers[i].value);
        }
        assert(view.skip(i as int).drop_first() =~= view.skip(i + 1));
        i = i + 1;
    }
    None
}

/// How the end of a response's body is found.
#[derive(Debug, Clone, Copy, PartialEq, Eq, Structural)]
pub enum BodyType {
    /// The body has that many bytes.
    ContentLength(usize),
    /// The body is in chunked transfer coding.
    ChunkedTransfer,
    /// The body ends with the connection.
    OnClose,
    /// There is no body.
    NoBody,
}

/// Where a response's body starts and how its end is found.
#[derive(Debug, Clone, Copy, PartialEq, Eq, Structural)]
pub struct BodyInfo {
    pub offset: usize,
    pub ty: BodyType,
}

impl BodyInfo {
    pub fn new(offset: usize, ty: BodyType) -> (r: Self)
        ensures
            r == (BodyInfo { offset, ty }),
    {
        Self { offset, ty }
    }
}

/// Whether the headers announce a body in chunked transfer coding.
pub open spec fn is_chunked(headers: Seq<(Seq<char>, Seq<u8>)>) -> bool {
    header_value(headers, "transfer-encoding"@) matches Some(v) && same_letters(
        v,
        vstd::utf8::encode_utf8("chunked"@),
    )
}

fn parse_is_chunked(headers: &Vec<Header>) -> (r: bool)
    ensures
        r == is_chunked(headers_view(headers@)),
{
    match find_header(headers, "transfer-encoding") {
        Some(v) => eq_ignore_ascii_case(v.as_slice(), "chunked".as_bytes()),
        None => false,
    }
}

fn parse_content_length(headers: &Vec<Header>) -> (r: Result<Option<usize>, Error>)
    ensures
        match header_value(headers_view(headers@), "content-length"@) {
            Some(v) => match crate::http::decimal::parsed_usize(v) {
                Some(n) => r == Ok::<Option<usize>, Error>(Some(n)),
                None => crate::error::fails(r, ErrorKind::InvalidData, "content-length not a number"@),
            },
            None => r == Ok::<Option<usize>, Error>(None),
        },
{
    match find_header(headers, "content-length") {
        Some(v) => match parse_usize(v.as_slice()) {
            Some(n) => Ok(Some(n)),
            None => Err(Error::new(ErrorKind::InvalidData, "content-length not a number")),
        },
        None => Ok(None),
    }
}

/// What a head tells of the body: nothing when it has a content length that is not a number.
pub open spec fn body_type(head: HeadView) -> Option<BodyType> {
    if is_chunked(head.headers) {
        Some(BodyType::ChunkedTransfer)
    } else {
        match header_value(head.headers, "content-length"@) {
            Some(v) => match crate::http::decimal::parsed_usize(v) {
                Some(n) => Some(BodyType::ContentLength(n)),
                None => None,
            },
            None => if head.version is None || head.version == Some(1u8) {
                Some(BodyType::OnClose)
            } else {
                Some(BodyType::NoBody)
            },
        }
    }
}

/// Find out from the head how the end of the body is found.
pub fn parse_body_info(head: &ResponseHead) -> (r: Result<BodyInfo, Error>)
    ensures
        match body_type(head@) {
            Some(ty) => r == Ok::<BodyInfo, Error>(BodyInfo { offset: head.size, ty }),
            None => crate::error::fails(r, ErrorKind::InvalidData, "content-length not a number"@),
        },
{
    if parse_is_chunked(&head.headers) {
        return Ok(BodyInfo::new(head.size, BodyType::ChunkedTransfer));
    }
    if let Some(content_length) = parse_content_length(&head.headers)? {
        return Ok(BodyInfo::new(head.size, BodyType::ContentLength(content_length)));
    }
    let on_close = match head.version {
        None => true,
        Some(version) => version == 1,
    };
    if on_close {
        Ok(BodyInfo::new(head.size, BodyType::OnClose))
    } else {
        Ok(BodyInfo::new(head.size, BodyType::NoBody))
    }
}

/// The header entries after the first `n` headers of a response were inserted one after the other.
pub open spec fn inserted(
    entries: Seq<(Seq<u8>, Seq<u8>)>,
    headers: Seq<(Seq<char>, Seq<u8>)>,
    n: nat,
) -> Seq<(Seq<u8>, Seq<u8>)>
    decreases n,
{
    if n == 0 {
        entries
    } else {
        crate::http::headers::with_value(
            inserted(entries, headers, (n - 1) as nat),
            crate::http::headers::lowercase(vstd::utf8::encode_utf8(headers[n - 1].0)),
            headers[n - 1].1,
        )
    }
}

/// Whether a received header has a valid name and a valid value.
pub open spec fn is_valid_header(header: (Seq<char>, Seq<u8>)) -> bool {
    &&& crate::http::headers::is_header_name(vstd::utf8::encode_utf8(header.0))
    &&& crate::http::headers::is_header_value(header.1)
}

/// Whether inserting the headers of a response into `entries` may lead to `post` with the result `r`: all are inserted,
/// or those before the first that is not valid, or before one for which there is no space.
pub open spec fn inserts_headers(
    entries: Seq<(Seq<u8>, Seq<u8>)>,
    headers: Seq<(Seq<char>, Seq<u8>)>,
    post: Seq<(Seq<u8>, Seq<u8>)>,
    r: Result<(), Error>,
) -> bool {
    exists|n: nat|
        {
            &&& n <= headers.len()
            &&& forall|i: int| 0 <= i < n ==> is_valid_header(#[trigger] headers[i])
            &&& post == #[trigger] inserted(entries, headers, n)
            &&& r is Ok <==> n == headers.len()
            &&& n < headers.len() ==> {
                let name = headers[n as int].0;
                if !crate::http::headers::is_header_name(vstd::utf8::encode_utf8(name)) {
                    crate::error::fails(
                        r,
                        ErrorKind::InvalidData,
                        "response invalid header name '"@ + name + "'"@,
                    )
                } else if !crate::http::headers::is_header_value(headers[n as int].1) {
                    crate::error::fails(
                        r,
                        ErrorKind::InvalidData,
                        "response invalid header value '"@ + crate::http::decimal::byte_list(
                            headers[n as int].1,
                        ) + "'"@,
                    )
                } else {
                    &&& post.len() >= crate::http::headers::header_limit()
                    &&& crate::error::fails(r, ErrorKind::InvalidData, "response has too many headers"@)
                }
            }
        }
}

/// Whether filling a response from a head may lead to `post` with the result `r`.
pub open spec fn fills_response(
    resp: crate::http::message::ResponseView,
    head: HeadView,
    post: crate::http::message::ResponseView,
    r: Result<(), Error>,
) -> bool {
    if head.code matches Some(code) && !(100 <= code < 1000) {
        &&& crate::error::fails(
            r,
            ErrorKind::InvalidData,
            "response invalid status code '"@ + crate::http::decimal::digits(head.code->0 as nat) + "'"@,
        )
        &&& post == resp
    } else {
        let status = match head.code {
            Some(code) => code,
            None => resp.status,
        };
        if head.version matches Some(version) && version > 1 {
            &&& crate::error::fails(
                r,
                ErrorKind::InvalidData,
                "response invalid version '"@ + crate::http::decimal::digits(head.version->0 as nat) + "'"@,
            )
            &&& post == (crate::http::message::ResponseView { status, ..resp })
        } else {
            let version = match head.version {
                None => resp.version,
                Some(version) => if version == 0 {
                    Version::Http10
                } else {
                    Version::Http11
                },
            };
            &&& inserts_headers(resp.headers, head.headers, post.headers, r)
            &&& post == (crate::http::message::ResponseView {
                status,
                version,
                headers: post.headers,
                body: resp.body,
            })
        }
    }
}

/// A text with another one before and one behind it.
fn quoted(before: &str, text: &str, behind: &str) -> (r: String)
    ensures
        r@ == before@ + text@ + behind@,
{
    let mut quoted = before.to_owned();
    quoted.append(text);
    quoted.append(behind);
    quoted
}

/// Fill a response from the head that was parsed.
pub fn parsed_into_response(parsed: &ResponseHead, resp: &mut Response) -> (r: Result<(), Error>)
    ensures
        fills_response(old(resp)@, parsed@, final(resp)@, r),
{
    // status code
    if let Some(code) = parsed.code {
        if !is_status_code(code) {
            let message = quoted("response invalid status code '", format_digits(code as usize).as_str(), "'");
            return Err(Error::new(ErrorKind::InvalidData, message.as_str()));
        }
        resp.status = code;
    }
    // version
    if let Some(version) = parsed.version {
        if version > 1 {
            let message = quoted("response invalid version '", format_digits(version as usize).as_str(), "'");
            return Err(Error::new(ErrorKind::InvalidData, message.as_str()));
        }
        resp.version = if version == 0 {
            Version::Http10
        } else {
            Version::Http11
        };
    }
    // headers
    let ghost entries = resp@.headers;
    let ghost headers = parsed@.headers;
    let mut i: usize = 0;
    while i < parsed.headers.len()
        invariant
            i <= parsed.headers@.len(),
            headers == headers_view(parsed.headers@),
            entries == old(resp)@.headers,
            resp@.headers == inserted(entries, headers, i as nat),
            forall|k: int| 0 <= k < i ==> is_valid_header(#[trigger] headers[k]),
            resp.status == (match parsed.code {
                Some(code) => code,
                None => old(resp).status,
            }),
            resp.version == (match parsed.version {
                None => old(resp).version,
                Some(version) => if version == 0 {
                    Version::Http10
                } else {
                    Version::Http11
                },
            }),
            resp.body == old(resp).body,
            parsed.code matches Some(code) ==> 100 <= code < 1000,
            parsed.version matches Some(version) ==> version <= 1,
        decreases parsed.headers@.len() - i,
    {
        let header = &parsed.headers[i];
        assert(headers[i as int] == (header.name@, header.value@));
        if !is_name(header.name.as_str().as_bytes()) {
            let message = quoted("response invalid header name '", header.name.as_str(), "'");
            return Err(Error::new(ErrorKind::InvalidData, message.as_str()));
        }
        if !is_value(header.value.as_slice()) {
            let message = quoted("response invalid header value '", format_bytes(header.value.as_slice()).as_str(), "'");
            return Err(Error::new(ErrorKind::InvalidData, message.as_str()));
        }
        if !headers_try_insert(
            &mut resp.headers,
            header.name.as_str().as_bytes(),
            header.value.as_slice(),
        ) {
            return Err(Error::new(ErrorKind::InvalidData, "response has too many headers"));
        }
        i = i + 1;
    }
    Ok(())
}

/// The data that is decoded: what was received, and a byte behind it. The decoder looks at that byte only when the coding
/// does not end in what was received.
pub open spec fn with_end_mark(received: Seq<u8>) -> Seq<u8> {
    received.push(0)
}

/// The body that was decoded from what was received of that length and the byte behind it, and how many of the received
/// bytes its coding took; nothing when the coding does not end in what was received. It is an error when the coding is not
/// valid.
pub open spec fn complete_chunks(
    decoded: Result<(Seq<u8>, Option<usize>, nat), nat>,
    len: nat,
) -> Result<Option<(Seq<u8>, nat)>, ()> {
    match decoded {
        Ok((body, remaining, rest)) => if rest == 0 || remaining is Some {
            Ok(None)
        } else {
            Ok(Some((body, (len + 1 - rest) as nat)))
        },
        Err(rest) => if rest == 0 {
            Ok(None)
        } else {
            Err(())
        },
    }
}

/// Take the body that was decoded from what was received of that length and the byte behind it, if the coding ends in what
/// was received.
pub fn parse_chunks(decoded: Result<(Vec<u8>, Option<usize>, usize), usize>, len: usize) -> (r: Result<
    Option<(Vec<u8>, usize)>,
    Error,
>)
    requires
        decoded matches Ok(x) ==> x.2 <= len + 1,
    ensures
        match complete_chunks(
            match decoded {
                Ok(x) => Ok((x.0@, x.1, x.2 as nat)),
                Err(rest) => Err(rest as nat),
            },
            len as nat,
        ) {
            Ok(Some((body, size))) => r matches Ok(Some(x)) && x.0@ == body && x.1 == size,
            Ok(None) => r matches Ok(x) && x is None,
            Err(_) => crate::error::fails(r, ErrorKind::InvalidInput, "Error while decoding chunks"@),
        },
{
    match decoded {
        Ok((body, remaining, rest)) => if rest == 0 || remaining.is_some() {
            Ok(None)
        } else {
            Ok(Some((body, len - (rest - 1))))
        },
        Err(rest) => if rest == 0 {
            Ok(None)
        } else {
            Err(Error::new(ErrorKind::InvalidInput, "Error while decoding chunks"))
        },
    }
}

/// A body that was received completely, and how many bytes the response took with it; nothing when bytes are missing.
/// It is an error when a body is not in valid chunked transfer coding and the data ends as such a coding does.
pub open spec fn complete_body(info: BodyInfo, data: Seq<u8>, eof: bool) -> Result<
    Option<(Seq<u8>, nat)>,
    (),
> {
    match info.ty {
        BodyType::ChunkedTransfer => {
            let received = data.skip(info.offset as int);
            match complete_chunks(decoded_chunks(with_end_mark(received)), received.len()) {
                Ok(Some((body, size))) => Ok(Some((body, info.offset as nat + size))),
                Ok(None) => Ok(None),
                Err(_) => if vstd::utf8::encode_utf8("\r\n\r\n"@).is_suffix_of(data) {
                    Err(())
                } else {
                    Ok(None)
                },
            }
        },
        BodyType::ContentLength(n) => if info.offset + n <= data.len() {
            Ok(Some((data.subrange(info.offset as int, info.offset + n), (info.offset + n) as nat)))
        } else {
            Ok(None)
        },
        BodyType::OnClose => if eof {
            Ok(Some((data.skip(info.offset as int), data.len())))
        } else {
            Ok(None)
        },
        BodyType::NoBody => Ok(Some((Seq::empty(), info.offset as nat))),
    }
}

/// Take the body out of the data, if all of it was received.
pub fn parse_body(info: &BodyInfo, data: &[u8], eof: bool) -> (r: Result<
    Option<(Vec<u8>, usize)>,
    Error,
>)
    requires
        info.offset <= data@.len(),
    ensures
        match complete_body(*info, data@, eof) {
            Ok(Some((body, size))) => r matches Ok(Some(x)) && x.0@ == body && x.1 == size && x.1
                <= data@.len(),
            Ok(None) => r matches Ok(x) && x is None,
            Err(_) => crate::error::fails(r, ErrorKind::InvalidInput, "Error while decoding chunks"@),
        },
        // a body of announced length is the bytes behind the head, as many as were announced
        info.ty matches BodyType::ContentLength(n) ==> match r {
            Ok(Some((body, size))) => {
                &&& info.offset + n <= data@.len()
                &&& body@.len() == n
                &&& forall|i: int| 0 <= i < n ==> #[trigger] body@[i] == data@[info.offset + i]
                &&& size == info.offset + n
            },
            Ok(None) => info.offset + n > data@.len(),
            Err(_) => false,
        },
        // a body that ends with the connection is all bytes behind the head
        info.ty is OnClose ==> match r {
            Ok(Some((body, size))) => {
                &&& eof
                &&& body@.len() == data@.len() - info.offset
                &&& forall|i: int| 0 <= i < body@.len() ==> #[trigger] body@[i] == data@[info.offset + i]
                &&& size == data@.len()
            },
            Ok(None) => !eof,
            Err(_) => false,
        },
        // a complete body stays the same whatever is received behind it, unless it ends with the connection
        (r matches Ok(x) && x is Some) && !(info.ty is OnClose) ==> forall|more: Seq<u8>|
            #[trigger] complete_body(*info, data@ + more, eof) == complete_body(*info, data@, eof),
{
    match info.ty {
        BodyType::ChunkedTransfer => {
            let mut encoded = slice_to_vec(slice_subrange(data, info.offset, data.len()));
            let ghost received = data@.skip(info.offset as int);
            assert(encoded@ =~= received);
            encoded.push(0);
            let decoded = decode_chunks(encoded.as_slice());
            match parse_chunks(decoded, data.len() - info.offset) {
                // the coding is not valid, which is reported when the data ends as the coding does
                Err(e) => if ends_with_ascii(data, "\r\n\r\n") {
                    Err(e)
                } else {
                    Ok(None)
                },
                Ok(None) => Ok(None),
                Ok(Some((body, size))) => {
                    proof {
                        assert forall|more: Seq<u8>| #[trigger]
                            complete_body(*info, data@ + more, eof) == complete_body(*info, data@, eof) by {
                            let other = with_end_mark(received + more);
                            assert((data@ + more).skip(info.offset as int) =~= received + more);
                            assert(encoded@.take(size as int) =~= other.take(size as int));
                            assert(decoded_chunks(other) == Ok::<_, nat>(
                                (body@, None::<usize>, (other.len() - size) as nat),
                            ));
                        }
                    }
                    Ok(Some((body, info.offset + size)))
                },
            }
        },
        BodyType::ContentLength(content_length) => {
            // read to given length
            if content_length <= data.len() - info.offset {
                let end: usize = info.offset + content_length;
                proof {
                    assert forall|more: Seq<u8>| #[trigger]
                        complete_body(*info, data@ + more, eof) == complete_body(*info, data@, eof) by {
                        following_data_changes_no_body(*info, data@, more, eof);
                    }
                }
                Ok(Some((slice_to_vec(slice_subrange(data, info.offset, end)), end)))
            } else {
                Ok(None)
            }
        },
        BodyType::OnClose => {
            if eof {
                let body = slice_to_vec(slice_subrange(data, info.offset, data.len()));
                assert(body@ =~= data@.skip(info.offset as int));
                Ok(Some((body, data.len())))
            } else {
                Ok(None)
            }
        },
        BodyType::NoBody => Ok(Some((Vec::new(), info.offset))),
    }
}

/// A [`DeserializeFrame`] impl for HTTP 1.x where [`DeserializeFrame::DeserializedFrame`] is a [`Response`].
pub struct Http1ResponseDeserializer {
    deserialized_response: Option<Response>,
    deserialized_size: usize,
    body_info: Option<BodyInfo>,
}

impl Http1ResponseDeserializer {
    /// The response that is being filled.
    pub closed spec fn response(&self) -> Option<crate::http::message::ResponseView> {
        match self.deserialized_response {
            Some(response) => Some(response@),
            None => None,
        }
    }

    /// How many bytes the response took that was found complete last.
    pub closed spec fn size(&self) -> nat {
        self.deserialized_size as nat
    }

    /// Where the body of the response starts whose head was parsed, and how its end is found.
    pub closed spec fn body(&self) -> Option<BodyInfo> {
        self.body_info
    }

    pub fn new() -> (r: Self)
        ensures
            r.response() is None,
            r.size() == 0,
            r.body() is None,
            r.progress() == 0,
    {
        Self { deserialized_response: None, deserialized_size: 0, body_info: None }
    }

    /// Whether looking for the body may lead to `post` with the result `r`, when the response filled so far is `resp`.
    pub open spec fn finds_body(
        &self,
        resp: crate::http::message::ResponseView,
        info: BodyInfo,
        data: Seq<u8>,
        eof: bool,
        post: &Self,
        r: Result<bool, Error>,
    ) -> bool {
        match complete_body(info, data, eof) {
            Ok(Some((body, size))) => {
                &&& r == Ok::<bool, Error>(true)
                &&& post.response() == Some(crate::http::message::ResponseView { body, ..resp })
                &&& post.body() is None
                &&& post.size() == size
            },
            Ok(None) => {
                &&& if eof {
                    crate::error::fails(
                        r,
                        ErrorKind::UnexpectedEof,
                        "http connection terminated before receiving full response"@,
                    )
                } else {
                    r == Ok::<bool, Error>(false)
                }
                &&& post.response() == Some(resp)
                &&& post.body() == Some(info)
                &&& post.size() == self.size()
            },
            Err(_) => {
                &&& crate::error::fails(r, ErrorKind::InvalidInput, "Error while decoding chunks"@)
                &&& post.response() == Some(resp)
                &&& post.body() == Some(info)
                &&& post.size() == self.size()
            },
        }
    }

    /// Whether going on with a parsed head may lead to `post` with the result `r`.
    pub open spec fn accepts_head(
        &self,
        resp: crate::http::message::ResponseView,
        head: HeadView,
        data: Seq<u8>,
        eof: bool,
        post: &Self,
        r: Result<bool, Error>,
    ) -> bool {
        match body_type(head) {
            None => {
                &&& crate::error::fails(r, ErrorKind::InvalidData, "content-length not a number"@)
                &&& post.response() == Some(resp)
                &&& post.body() is None
                &&& post.size() == self.size()
            },
            Some(ty) => {
                let info = BodyInfo { offset: head.size as usize, ty };
                exists|filled: crate::http::message::ResponseView, f: Result<(), Error>| #[trigger]
                    fills_response(resp, head, filled, f) && match f {
                        Err(e) => {
                            &&& r == Err::<bool, Error>(e)
                            &&& post.response() == Some(filled)
                            &&& post.body() == Some(info)
                            &&& post.size() == self.size()
                        },
                        Ok(_) => self.finds_body(filled, info, data, eof, post, r),
                    }
            },
        }
    }

    /// Fill the response from the head that was parsed and look for the body.
    pub fn accept_head(&mut self, head: &ResponseHead, data: &[u8], eof: bool) -> (r: Result<
        bool,
        Error,
    >)
        requires
            head.size <= data@.len(),
            old(self).response() is Some,
            old(self).body() is None,
        ensures
            old(self).accepts_head(old(self).response()->0, head@, data@, eof, final(self), r),
            final(self).progress() <= data@.len(),
            r == Ok::<bool, Error>(true) ==> final(self).ready(data@),
    {
        // determine the body type
        let info = parse_body_info(head)?;
        self.body_info = Some(info);
        let mut response = match self.deserialized_response.take() {
            Some(response) => response,
            None => Response::new(Vec::new()),
        };
        let ghost resp = response@;
        // parse into cached deserialized_response
        let filled = parsed_into_response(head, &mut response);
        assert(fills_response(resp, head@, response@, filled));
        self.deserialized_response = Some(response);
        match filled {
            Err(e) => Err(e),
            Ok(_) => self.find_body(&info, data, eof),
        }
    }

    /// Look for the body of the response whose head was parsed.
    pub fn find_body(&mut self, info: &BodyInfo, data: &[u8], eof: bool) -> (r: Result<bool, Error>)
        requires
            info.offset <= data@.len(),
            old(self).response() is Some,
            old(self).body() == Some(*info),
        ensures
            old(self).finds_body(old(self).response()->0, *info, data@, eof, final(self), r),
            final(self).progress() <= data@.len(),
            r == Ok::<bool, Error>(true) ==> final(self).ready(data@),
    {
        // if entire body has been received, insert into deserialized_response and return true
        match parse_body(info, data, eof)? {
            None => if eof {
                Err(
                    Error::new(
                        ErrorKind::UnexpectedEof,
                        "http connection terminated before receiving full response",
                    ),
                )
            } else {
                Ok(false)
            },
            Some((body, size)) => {
                let mut response = match self.deserialized_response.take() {
                    Some(response) => response,
                    None => Response::new(Vec::new()),
                };
                response.body = body;
                self.deserialized_response = Some(response);
                // reset parsed body info for next response parsing iteration, allowing for use of keep-alive
                self.body_info = None;
                self.deserialized_size = size;
                Ok(true)
            },
        }
    }
}

impl DeserializeFrame for Http1ResponseDeserializer {
    type DeserializedFrame<'a> = Response;

    open spec fn progress(&self) -> nat {
        match self.body() {
            Some(info) => info.offset as nat,
            None => 0,
        }
    }

    open spec fn ready(&self, data: Seq<u8>) -> bool {
        self.response() is Some && self.size() <= data.len() && self.body() is None
    }

    open spec fn checks(&self, data: Seq<u8>, eof: bool, post: &Self, r: Result<bool, Error>) -> bool {
        let resp = match self.response() {
            Some(resp) => resp,
            None => crate::http::message::blank_response(),
        };
        match self.body() {
            Some(info) => self.finds_body(resp, info, data, eof, post, r),
            None => match httparse_response(data, line_breaks(data)) {
                Err(name) => {
                    &&& crate::error::fails(
                        r,
                        ErrorKind::InvalidData,
                        "http response parse failed: "@ + name,
                    )
                    &&& post.response() == Some(resp)
                    &&& post.body() is None
                    &&& post.size() == self.size()
                },
                Ok(None) => {
                    &&& r == Ok::<bool, Error>(false)
                    &&& post.response() == Some(resp)
                    &&& post.body() is None
                    &&& post.size() == self.size()
                },
                Ok(Some(head)) => self.accepts_head(resp, head, data, eof, post, r),
            },
        }
    }

    open spec fn deserializes<'a>(
        &self,
        data: Seq<u8>,
        post: &Self,
        r: Result<SizedFrame<Self::DeserializedFrame<'a>>, Error>,
    ) -> bool {
        match self.response() {
            Some(response) => {
                &&& r matches Ok(sized)
                &&& sized.frame@ == response
                &&& sized.size == self.size()
                &&& post.response() is None
                &&& post.body() == self.body()
                &&& post.size() == self.size()
            },
            None => crate::error::fails(r, ErrorKind::Other, "no deserialized frame"@) && *post
                == *self,
        }
    }

    fn check_deserialize_frame(&mut self, data: &[u8], eof: bool) -> Result<bool, Error> {
        if self.deserialized_response.is_none() {
            self.deserialized_response = Some(Response::new(Vec::new()));
        }
        match self.body_info {
            // use parsed BodyInfo to check if entire body has been received
            Some(info) => self.find_body(&info, data, eof),
            // if they have not already been parsed, attempt to parse the response headers and find the body type.
            None => match parse_head(data, count_max_headers(data)) {
                Ok(Some(head)) => self.accept_head(&head, data, eof),
                Ok(None) => Ok(false),
                Err(name) => {
                    let mut message = "http response parse failed: ".to_owned();
                    message.append(name.as_str());
                    Err(Error::new(ErrorKind::InvalidData, message.as_str()))
                },
            },
        }
    }

    fn deserialize_frame<'a>(&'a mut self, data: &'a [u8]) -> Result<
        SizedFrame<Self::DeserializedFrame<'a>>,
        Error,
    > {
        // return response that was deserialized in `check_deserialize_frame(..)`
        match self.deserialized_response.take() {
            Some(response) => Ok(SizedFrame::new(response, self.deserialized_size)),
            None => Err(Error::new(ErrorKind::Other, "no deserialized frame")),
        }
    }
}

/// A body of known length, once complete, stays the same whatever is received behind it. So does a chunked one, as
/// [`parse_body`] states.
pub proof fn following_data_changes_no_body(info: BodyInfo, data: Seq<u8>, more: Seq<u8>, eof: bool)
    requires
        info.ty is ContentLength || info.ty is NoBody,
        complete_body(info, data, eof) matches Ok(Some(_)),
    ensures
        complete_body(info, data + more, eof) == complete_body(info, data, eof),
{
    if let BodyType::ContentLength(n) = info.ty {
        assert((data + more).subrange(info.offset as int, info.offset + n) =~= data.subrange(
            info.offset as int,
            info.offset + n,
        ));
    }
}

/// A response is complete with the data that a successful check was given: the size that it is then deserialized with is
/// no more than the data, and the body is the one that was received.
pub proof fn complete_response_is_deserialized(
    pre: Http1ResponseDeserializer,
    info: BodyInfo,
    resp: crate::http::message::ResponseView,
    data: Seq<u8>,
    eof: bool,
    mid: Http1ResponseDeserializer,
    post: Http1ResponseDeserializer,
    d: Result<SizedFrame<Response>, Error>,
)
    requires
        pre.body() == Some(info),
        pre.response() == Some(resp),
        pre.checks(data, eof, &mid, Ok(true)),
        mid.deserializes(data, &post, d),
    ensures
        complete_body(info, data, eof) matches Ok(Some((body, size))) && d matches Ok(sized) && sized.frame@
            == (crate::http::message::ResponseView { body, ..resp }) && sized.size == size,
        post.response() is None && post.body() is None,
{
}

/// It makes no difference whether a response is received at once or in pieces: a check that waits for more data, followed
/// by one with the data that came behind it, is a check of all the data. What follows a complete head is taken not to
/// change how the head is parsed.
pub proof fn response_may_arrive_in_pieces(
    pre: Http1ResponseDeserializer,
    data: Seq<u8>,
    mid: Http1ResponseDeserializer,
    more: Seq<u8>,
    eof: bool,
    post: Http1ResponseDeserializer,
    r: Result<bool, Error>,
)
    requires
        pre.body() is None,
        pre.checks(data, false, &mid, Ok(false)),
        mid.checks(data + more, eof, &post, r),
        httparse_response(data, line_breaks(data)) matches Ok(Some(_)) ==> httparse_response(
            data + more,
            line_breaks(data + more),
        ) == httparse_response(data, line_breaks(data)),
    ensures
        pre.checks(data + more, eof, &post, r),
{
    let resp = match pre.response() {
        Some(resp) => resp,
        None => crate::http::message::blank_response(),
    };
    let all = data + more;
    assert(mid.size() == pre.size());
    match httparse_response(data, line_breaks(data)) {
        Ok(Some(head)) => {
            let (filled, f) = choose|
                filled: crate::http::message::ResponseView,
                f: Result<(), Error>,
            | #[trigger]
                fills_response(resp, head, filled, f) && match f {
                    Err(_) => false,
                    Ok(_) => mid.response() == Some(filled),
                };
            assert(fills_response(resp, head, filled, f));
            assert(pre.finds_body(filled, mid.body()->0, all, eof, &post, r));
            assert(pre.accepts_head(resp, head, all, eof, &post, r));
        },
        _ => {
            if let Ok(Some(head)) = httparse_response(all, line_breaks(all)) {
                if body_type(head) is Some {
                    let info = BodyInfo { offset: head.size as usize, ty: body_type(head)->0 };
                    let (filled, f) = choose|
                        filled: crate::http::message::ResponseView,
                        f: Result<(), Error>,
                    | #[trigger]
                        fills_response(resp, head, filled, f) && match f {
                            Err(e) => {
                                &&& r == Err::<bool, Error>(e)
                                &&& post.response() == Some(filled)
                                &&& post.body() == Some(info)
                                &&& post.size() == mid.size()
                            },
                            Ok(_) => mid.finds_body(filled, info, all, eof, &post, r),
                        };
                    assert(fills_response(resp, head, filled, f));
                }
                assert(pre.accepts_head(resp, head, all, eof, &post, r));
            }
        },
    }
}

/// A body of announced length is complete when that many bytes were received behind the head, and is those bytes: no more,
/// no less, and no others. The response takes the head and the body.
pub proof fn announced_body_is_received(offset: usize, n: usize, data: Seq<u8>, eof: bool)
    ensures
        match complete_body(BodyInfo { offset, ty: BodyType::ContentLength(n) }, data, eof) {
            Ok(Some((body, size))) => {
                &&& offset + n <= data.len()
                &&& body.len() == n
                &&& forall|i: int| 0 <= i < n ==> #[trigger] body[i] == data[offset + i]
                &&& size == offset + n
            },
            Ok(None) => offset + n > data.len(),
            Err(_) => false,
        },
{
}

/// A body that ends with the connection is complete when the connection ended, and is all bytes behind the head. Where
/// there is none, it is complete with the head, and empty.
pub proof fn body_ends_with_connection(offset: usize, data: Seq<u8>, eof: bool)
    requires
        offset <= data.len(),
    ensures
        match complete_body(BodyInfo { offset, ty: BodyType::OnClose }, data, eof) {
            Ok(Some((body, size))) => {
                &&& eof
                &&& size == data.len()
                &&& data.take(offset as int) + body == data
            },
            Ok(None) => !eof,
            Err(_) => false,
        },
        complete_body(BodyInfo { offset, ty: BodyType::NoBody }, data, eof) matches Ok(Some((body, size)))
            && body.len() == 0 && size == offset,
{
    assert(data.take(offset as int) + data.skip(offset as int) =~= data);
}

/// A chunked body is what is decoded of the bytes behind the head, and takes the bytes of its coding, if that ends in what
/// was received: then the decoder does not look at a byte that is put behind them. If it does, bytes are missing.
pub proof fn chunked_body_is_decoded(
    offset: usize,
    data: Seq<u8>,
    eof: bool,
    body: Seq<u8>,
    remaining: Option<usize>,
    rest: nat,
)
    requires
        offset <= data.len(),
        rest <= data.len() - offset + 1,
        decoded_chunks(data.skip(offset as int).push(0)) == Ok::<_, nat>((body, remaining, rest)),
    ensures
        rest > 0 && remaining is None ==> complete_body(
            BodyInfo { offset, ty: BodyType::ChunkedTransfer },
            data,
            eof,
        ) == Ok::<_, ()>(Some((body, (data.len() - (rest - 1)) as nat))),
        rest == 0 || remaining is Some ==> complete_body(
            BodyInfo { offset, ty: BodyType::ChunkedTransfer },
            data,
            eof,
        ) == Ok::<Option<(Seq<u8>, nat)>, ()>(None),
{
}

/// Bytes that are not in chunked transfer coding are an error as soon as the data ends with an empty line, and not before.
/// When the decoder fails for want of bytes, more are waited for.
pub proof fn invalid_chunks_are_reported_at_empty_line(offset: usize, data: Seq<u8>, eof: bool, rest: nat)
    requires
        offset <= data.len(),
        decoded_chunks(data.skip(offset as int).push(0)) == Err::<(Seq<u8>, Option<usize>, nat), _>(rest),
    ensures
        complete_body(BodyInfo { offset, ty: BodyType::ChunkedTransfer }, data, eof) is Err <==> rest > 0 && data.len()
            >= 4 && data.skip(data.len() - 4) == seq![13u8, 10, 13, 10],
        complete_body(BodyInfo { offset, ty: BodyType::ChunkedTransfer }, data, eof) matches Ok(x) ==> x is None,
{
    reveal_strlit("\r\n\r\n");
    vstd::utf8::is_ascii_chars_encode_utf8("\r\n\r\n"@);
    assert(vstd::utf8::encode_utf8("\r\n\r\n"@) =~= seq![13u8, 10, 13, 10]);
    if data.len() >= 4 {
        assert(data.subrange(data.len() - 4, data.len() as int) =~= data.skip(data.len() - 4));
    }
}

/// Bytes are the same but for the case of letters when there are as many, and each is the same or the same letter in the
/// other case.
pub proof fn same_letters_in_any_case(a: Seq<u8>, b: Seq<u8>)
    ensures
        same_letters(a, b) <==> {
            &&& a.len() == b.len()
            &&& forall|i: int|
                0 <= i < a.len() ==> {
                    ||| #[trigger] a[i] == b[i]
                    ||| 'a' as u8 <= a[i] <= 'z' as u8 && b[i] + 32 == a[i]
                    ||| 'A' as u8 <= a[i] <= 'Z' as u8 && b[i] == a[i] + 32
                }
        },
{
    let la = crate::http::headers::lowercase(a);
    let lb = crate::http::headers::lowercase(b);
    if same_letters(a, b) {
        assert(la.len() == a.len() && lb.len() == b.len());
        assert forall|i: int| 0 <= i < a.len() implies {
            ||| #[trigger] a[i] == b[i]
            ||| 'a' as u8 <= a[i] <= 'z' as u8 && b[i] + 32 == a[i]
            ||| 'A' as u8 <= a[i] <= 'Z' as u8 && b[i] == a[i] + 32
        } by {
            assert(la[i] == lb[i]);
        }
    } else if a.len() == b.len() {
        let i = choose|i: int| 0 <= i < la.len() && #[trigger] la[i] != lb[i];
        if forall|i: int| 0 <= i < la.len() ==> #[trigger] la[i] == lb[i] {
            assert(la =~= lb);
        }
        assert(a[i] != b[i]);
    }
}

/// The value of a header is that of the first header of its name, in any case, and there is none when there is no such
/// header.
pub proof fn value_is_of_first_header(headers: Seq<(Seq<char>, Seq<u8>)>, name: Seq<char>)
    ensures
        match header_value(headers, name) {
            Some(value) => exists|i: int|
                0 <= i < headers.len() && value == (#[trigger] headers[i]).1 && same_letters(
                    vstd::utf8::encode_utf8(headers[i].0),
                    vstd::utf8::encode_utf8(name),
                ) && forall|k: int|
                    0 <= k < i ==> !same_letters(
                        vstd::utf8::encode_utf8((#[trigger] headers[k]).0),
                        vstd::utf8::encode_utf8(name),
                    ),
            None => forall|k: int|
                0 <= k < headers.len() ==> !same_letters(
                    vstd::utf8::encode_utf8((#[trigger] headers[k]).0),
                    vstd::utf8::encode_utf8(name),
                ),
        },
    decreases headers.len(),
{
    if headers.len() > 0 {
        let text = vstd::utf8::encode_utf8(name);
        if same_letters(vstd::utf8::encode_utf8(headers[0].0), text) {
            assert(header_value(headers, name)->0 == headers[0].1);
        } else {
            let rest = headers.drop_first();
            value_is_of_first_header(rest, name);
            match header_value(rest, name) {
                Some(value) => {
                    let i = choose|i: int|
                        0 <= i < rest.len() && value == (#[trigger] rest[i]).1 && same_letters(
                            vstd::utf8::encode_utf8(rest[i].0),
                            text,
                        ) && forall|k: int|
                            0 <= k < i ==> !same_letters(vstd::utf8::encode_utf8((#[trigger] rest[k]).0), text);
                    assert(headers[i + 1] == rest[i]);
                    assert forall|k: int| 0 <= k < i + 1 implies !same_letters(
                        vstd::utf8::encode_utf8((#[trigger] headers[k]).0),
                        text,
                    ) by {
                        if k > 0 {
                            assert(headers[k] == rest[k - 1]);
                        }
                    }
                },
                None => {
                    assert forall|k: int| 0 <= k < headers.len() implies !same_letters(
                        vstd::utf8::encode_utf8((#[trigger] headers[k]).0),
                        text,
                    ) by {
                        if k > 0 {
                            assert(headers[k] == rest[k - 1]);
                        }
                    }
                },
            }
        }
    }
}

/// The head tells how the body ends: chunked transfer coding counts first, then an announced length. Without either, the
/// body of a response of version 1.1 ends with the connection, and one of version 1.0 has none.
pub proof fn head_tells_how_body_ends(head: HeadView)
    ensures
        header_value(head.headers, "transfer-encoding"@) matches Some(v) && same_letters(
            v,
            vstd::utf8::encode_utf8("chunked"@),
        ) ==> body_type(head) == Some(BodyType::ChunkedTransfer),
        !(header_value(head.headers, "transfer-encoding"@) matches Some(v) && same_letters(
            v,
            vstd::utf8::encode_utf8("chunked"@),
        )) ==> match header_value(head.headers, "content-length"@) {
            Some(v) => match crate::http::decimal::parsed_usize(v) {
                Some(n) => body_type(head) == Some(BodyType::ContentLength(n)),
                None => body_type(head) is None,
            },
            None => body_type(head) == Some(
                if head.version == Some(0u8) {
                    BodyType::NoBody
                } else if head.version == Some(1u8) || head.version is None {
                    BodyType::OnClose
                } else {
                    BodyType::NoBody
                },
            ),
        },
        forall|n: usize|
            header_value(head.headers, "transfer-encoding"@) is None && header_value(head.headers, "content-length"@)
                == Some(#[trigger] crate::http::decimal::decimal(n as nat)) ==> body_type(head) == Some(
                BodyType::ContentLength(n),
            ),
{
    assert forall|n: usize|
        header_value(head.headers, "transfer-encoding"@) is None && header_value(head.headers, "content-length"@)
            == Some(#[trigger] crate::http::decimal::decimal(n as nat)) implies body_type(head) == Some(
        BodyType::ContentLength(n),
    ) by {
        crate::http::decimal::formatted_number_is_parsed_back(n);
    }
}

/// The name that a received header has in a response.
pub open spec fn stored_name(header: (Seq<char>, Seq<u8>)) -> Seq<u8> {
    crate::http::headers::lowercase(vstd::utf8::encode_utf8(header.0))
}

/// A header whose name does not come again is found in the response with its value. A name that was not received keeps
/// the value that it had.
pub proof fn received_headers_are_found(
    entries: Seq<(Seq<u8>, Seq<u8>)>,
    headers: Seq<(Seq<char>, Seq<u8>)>,
    n: nat,
    name: Seq<u8>,
)
    requires
        n <= headers.len(),
    ensures
        forall|i: int|
            0 <= i < n && stored_name(#[trigger] headers[i]) == name && (forall|k: int|
                i < k < n ==> stored_name(#[trigger] headers[k]) != name) ==> crate::http::headers::first_value(
                inserted(entries, headers, n),
                name,
            ) == Some(headers[i].1),
        (forall|k: int| 0 <= k < n ==> stored_name(#[trigger] headers[k]) != name)
            ==> crate::http::headers::first_value(inserted(entries, headers, n), name)
            == crate::http::headers::first_value(entries, name),
    decreases n,
{
    if n > 0 {
        let m = (n - 1) as nat;
        received_headers_are_found(entries, headers, m, name);
        let before = inserted(entries, headers, m);
        let last = headers[n - 1];
        crate::http::headers::inserted_value_is_found(before, stored_name(last), last.1);
        if stored_name(last) != name {
            crate::http::headers::inserting_keeps_other_names(before, stored_name(last), last.1, name);
        }
        assert forall|i: int|
            0 <= i < n && stored_name(#[trigger] headers[i]) == name && (forall|k: int|
                i < k < n ==> stored_name(#[trigger] headers[k]) != name) implies crate::http::headers::first_value(
            inserted(entries, headers, n),
            name,
        ) == Some(headers[i].1) by {
            if i < n - 1 {
                assert(stored_name(headers[n - 1]) != name);
            }
        }
        if forall|k: int| 0 <= k < n ==> stored_name(#[trigger] headers[k]) != name {
            assert(stored_name(headers[n - 1]) != name);
        }
    }
}

/// A response is filled with the status code, the version and the headers of its head: a header whose name does not come
/// again is found with its value. The body is not touched. It is an error when the status code is not one from 100 to 999,
/// the version is not 1.0 or 1.1, or a header is not valid.
pub proof fn head_fills_response(
    resp: crate::http::message::ResponseView,
    head: HeadView,
    post: crate::http::message::ResponseView,
    r: Result<(), Error>,
)
    requires
        fills_response(resp, head, post, r),
    ensures
        post.body == resp.body,
        head.code matches Some(code) && (code < 100 || code >= 1000) ==> r is Err,
        head.version matches Some(version) && version >= 2 ==> r is Err,
        r is Ok ==> {
            &&& head.code matches Some(code) ==> post.status == code
            &&& head.code is None ==> post.status == resp.status
            &&& head.version == Some(0u8) ==> post.version == Version::Http10
            &&& head.version == Some(1u8) ==> post.version == Version::Http11
            &&& head.version is None ==> post.version == resp.version
            &&& forall|i: int|
                0 <= i < head.headers.len() && (forall|k: int|
                    i < k < head.headers.len() ==> stored_name(#[trigger] head.headers[k]) != stored_name(
                        head.headers[i],
                    )) ==> crate::http::headers::first_value(
                    post.headers,
                    stored_name(#[trigger] head.headers[i]),
                ) == Some(head.headers[i].1)
            &&& forall|i: int| 0 <= i < head.headers.len() ==> is_valid_header(#[trigger] head.headers[i])
        },
        r matches Err(e) ==> e.kind == ErrorKind::InvalidData,
        head.code matches Some(code) && (code < 100 || code >= 1000) ==> r->Err_0.message@
            == "response invalid status code '"@ + crate::http::decimal::digits(head.code->0 as nat) + "'"@ && post == resp,
        (head.code is None || 100 <= head.code->0 < 1000) && (head.version matches Some(version) && version >= 2)
            ==> r->Err_0.message@ == "response invalid version '"@ + crate::http::decimal::digits(
            head.version->0 as nat,
        ) + "'"@,
        (head.code is None || 100 <= head.code->0 < 1000) && (head.version is None || head.version->0 <= 1)
            && head.headers.len() == 0 ==> r is Ok && post.headers == resp.headers,
{
    if r is Ok {
        let n = head.headers.len();
        assert(post.headers == inserted(resp.headers, head.headers, n));
        assert forall|i: int|
            0 <= i < n && (forall|k: int|
                i < k < n ==> stored_name(#[trigger] head.headers[k]) != stored_name(
                    head.headers[i],
                )) implies crate::http::headers::first_value(post.headers, stored_name(#[trigger] head.headers[i]))
            == Some(head.headers[i].1) by {
            received_headers_are_found(resp.headers, head.headers, n, stored_name(head.headers[i]));
        }
    }
}

/// The number of line breaks grows by one with each line feed behind a carriage return.
pub proof fn line_breaks_are_counted(data: Seq<u8>, byte: u8)
    ensures
        line_breaks(Seq::empty()) == 0,
        line_breaks(data.push(byte)) == line_breaks(data) + if data.len() > 0 && data.last() == '\r' as u8 && byte
            == '\n' as u8 {
            1nat
        } else {
            0nat
        },
{
    assert(data.push(byte).drop_last() =~= data);
}

/// A response whose head announces `n` bytes, all of which were received, is deserialized with the status code, version and
/// headers of the head, and with exactly these bytes as its body. It takes the head and the body of the data, and leaves
/// nothing of it behind for the next response.
pub proof fn response_with_announced_length_is_deserialized(
    pre: Http1ResponseDeserializer,
    data: Seq<u8>,
    eof: bool,
    head: HeadView,
    n: usize,
    mid: Http1ResponseDeserializer,
    c: Result<bool, Error>,
    post: Http1ResponseDeserializer,
    d: Result<SizedFrame<Response>, Error>,
)
    requires
        pre.response() is None,
        pre.body() is None,
        data.len() <= usize::MAX,
        httparse_response(data, line_breaks(data)) == Ok::<_, Seq<char>>(Some(head)),
        head.size + n <= data.len(),
        header_value(head.headers, "transfer-encoding"@) is None,
        header_value(head.headers, "content-length"@) == Some(crate::http::decimal::decimal(n as nat)),
        pre.checks(data, eof, &mid, c),
        c is Ok,
        mid.deserializes(data, &post, d),
    ensures
        c == Ok::<bool, Error>(true),
        d matches Ok(sized) && {
            &&& sized.size == head.size + n
            &&& sized.frame@.body.len() == n
            &&& forall|i: int| 0 <= i < n ==> #[trigger] sized.frame@.body[i] == data[head.size + i]
            &&& head.code matches Some(code) ==> sized.frame@.status == code
            &&& head.version == Some(0u8) ==> sized.frame@.version == Version::Http10
            &&& head.version == Some(1u8) ==> sized.frame@.version == Version::Http11
            &&& forall|i: int|
                0 <= i < head.headers.len() && (forall|k: int|
                    i < k < head.headers.len() ==> stored_name(#[trigger] head.headers[k]) != stored_name(
                        head.headers[i],
                    )) ==> crate::http::headers::first_value(
                    sized.frame@.headers,
                    stored_name(#[trigger] head.headers[i]),
                ) == Some(head.headers[i].1)
        },
        post.response() is None,
        post.body() is None,
{
    head_tells_how_body_ends(head);
    let resp = crate::http::message::blank_response();
    let info = BodyInfo { offset: head.size as usize, ty: BodyType::ContentLength(n) };
    assert(body_type(head) == Some(BodyType::ContentLength(n)));
    let (filled, f) = choose|filled: crate::http::message::ResponseView, f: Result<(), Error>| #[trigger]
        fills_response(resp, head, filled, f) && match f {
            Err(e) => {
                &&& c == Err::<bool, Error>(e)
                &&& mid.response() == Some(filled)
                &&& mid.body() == Some(info)
                &&& mid.size() == pre.size()
            },
            Ok(_) => pre.finds_body(filled, info, data, eof, &mid, c),
        };
    head_fills_response(resp, head, filled, f);
    announced_body_is_received(head.size as usize, n, data, eof);
}

/// A check of a response whose head announces `n` bytes, all of which were received, finds it complete, unless the head is
/// not valid.
pub proof fn check_of_announced_body_succeeds(
    pre: Http1ResponseDeserializer,
    data: Seq<u8>,
    eof: bool,
    head: HeadView,
    n: usize,
    mid: Http1ResponseDeserializer,
    c: Result<bool, Error>,
)
    requires
        pre.body() is None,
        data.len() <= usize::MAX,
        httparse_response(data, line_breaks(data)) == Ok::<_, Seq<char>>(Some(head)),
        head.size + n <= data.len(),
        header_value(head.headers, "transfer-encoding"@) is None,
        header_value(head.headers, "content-length"@) == Some(crate::http::decimal::decimal(n as nat)),
        pre.checks(data, eof, &mid, c),
    ensures
        c is Ok ==> c == Ok::<bool, Error>(true),
        c matches Err(e) ==> e.kind == ErrorKind::InvalidData,
{
    head_tells_how_body_ends(head);
    let resp = match pre.response() {
        Some(resp) => resp,
        None => crate::http::message::blank_response(),
    };
    let info = BodyInfo { offset: head.size as usize, ty: BodyType::ContentLength(n) };
    let (filled, f) = choose|filled: crate::http::message::ResponseView, f: Result<(), Error>| #[trigger]
        fills_response(resp, head, filled, f) && match f {
            Err(e) => {
                &&& c == Err::<bool, Error>(e)
                &&& mid.response() == Some(filled)
                &&& mid.body() == Some(info)
                &&& mid.size() == pre.size()
            },
            Ok(_) => pre.finds_body(filled, info, data, eof, &mid, c),
        };
    head_fills_response(resp, head, filled, f);
    announced_body_is_received(head.size as usize, n, data, eof);
}

/// A response whose head was received waits for its body, and is an error when the connection ends before all of it was
/// received. What was announced and filled is kept while it waits.
pub proof fn cut_off_response_is_an_error(
    pre: Http1ResponseDeserializer,
    data: Seq<u8>,
    eof: bool,
    offset: usize,
    n: usize,
    mid: Http1ResponseDeserializer,
    c: Result<bool, Error>,
)
    requires
        pre.response() is Some,
        pre.body() == Some(BodyInfo { offset, ty: BodyType::ContentLength(n) }),
        offset + n > data.len(),
        pre.checks(data, eof, &mid, c),
    ensures
        eof ==> crate::error::fails(
            c,
            ErrorKind::UnexpectedEof,
            "http connection terminated before receiving full response"@,
        ),
        !eof ==> c == Ok::<bool, Error>(false),
        mid.response() == pre.response(),
        mid.body() == pre.body(),
{
    announced_body_is_received(offset, n, data, eof);
}

/// Data that is no response is an error, and a head that was not received as a whole is waited for.
pub proof fn malformed_response_is_an_error(
    pre: Http1ResponseDeserializer,
    data: Seq<u8>,
    eof: bool,
    mid: Http1ResponseDeserializer,
    c: Result<bool, Error>,
)
    requires
        pre.body() is None,
        pre.checks(data, eof, &mid, c),
    ensures
        httparse_response(data, line_breaks(data)) matches Err(name) ==> crate::error::fails(
            c,
            ErrorKind::InvalidData,
            "http response parse failed: "@ + name,
        ),
        httparse_response(data, line_breaks(data)) == Ok::<Option<HeadView>, Seq<char>>(None) ==> c == Ok::<bool, Error>(
            false,
        ),
{
}

/// The names and values of headers are those that were received, in their order.
pub proof fn headers_are_as_received(headers: Seq<Header>, i: int)
    ensures
        headers_view(headers).len() == headers.len(),
        0 <= i < headers.len() ==> headers_view(headers)[i] == (headers[i].name@, headers[i].value@),
{
}

/// A head is what its parts are.
pub proof fn head_is_its_parts(head: ResponseHead)
    ensures
        head@.size == head.size,
        head@.version == head.version,
        head@.code == head.code,
        head@.headers == headers_view(head.headers@),
{
}

/// A response whose body ends with the connection, or is chunked, is deserialized like one of announced length: the body is
/// what was found complete, and all else is what was filled from the head before.
pub proof fn found_body_is_deserialized(
    pre: Http1ResponseDeserializer,
    info: BodyInfo,
    resp: crate::http::message::ResponseView,
    data: Seq<u8>,
    eof: bool,
    body: Seq<u8>,
    size: nat,
    mid: Http1ResponseDeserializer,
    c: Result<bool, Error>,
    post: Http1ResponseDeserializer,
    d: Result<SizedFrame<Response>, Error>,
)
    requires
        pre.body() == Some(info),
        pre.response() == Some(resp),
        complete_body(info, data, eof) == Ok::<_, ()>(Some((body, size))),
        pre.checks(data, eof, &mid, c),
        mid.deserializes(data, &post, d),
    ensures
        c == Ok::<bool, Error>(true),
        d matches Ok(sized) && {
            &&& sized.size == size
            &&& sized.frame@.body == body
            &&& sized.frame@.status == resp.status
            &&& sized.frame@.version == resp.version
            &&& sized.frame@.headers == resp.headers
        },
        post.response() is None,
        post.body() is None,
{
}

} // verus!
