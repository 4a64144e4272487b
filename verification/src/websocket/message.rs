//! WebSocket messages
use std::borrow::Cow;

use vstd::prelude::*;
use vstd::slice::{slice_subrange, slice_to_vec};
use vstd::string::*;

use crate::error::{Error, ErrorKind};
use crate::http::decimal::format_digits;
use crate::websocket::coding::{format_header, Control, Data, FrameHeader, OpCode};

verus! {

/// The text that bytes are that are not valid UTF-8, with a replacement character for each part that is not.
pub uninterp spec fn utf8_lossy(bytes: Seq<u8>) -> Seq<char>;

/// The text that bytes are: what they encode if they are valid UTF-8.
pub open spec fn lossy_text(bytes: Seq<u8>) -> Seq<char> {
    if vstd::utf8::valid_utf8(bytes) {
        vstd::utf8::decode_utf8(bytes)
    } else {
        utf8_lossy(bytes)
    }
}

/// [`String::from_utf8_lossy`] decodes valid UTF-8, and replaces what is not valid.
#[verifier::external_body]
fn decode_lossy(bytes: &[u8]) -> (r: String)
    ensures
        r@ == if vstd::utf8::valid_utf8(bytes@) {
            vstd::utf8::decode_utf8(bytes@)
        } else {
            utf8_lossy(bytes@)
        },
{
    String::from_utf8_lossy(bytes).into_owned()
}

/// [`rand::random`] gives any four bytes.
#[verifier::external_body]
fn random_mask() -> (r: [u8; 4]) {
    rand::random()
}

/// Whether that mask may come of [`rand::random`].
pub closed spec fn is_random_mask(mask: [u8; 4]) -> bool {
    call_ensures(random_mask, (), mask)
}

/// Make a mask by the given function.
fn mask_by<F: Fn() -> [u8; 4]>(f: F) -> (r: [u8; 4])
    requires
        call_requires(f, ()),
    ensures
        call_ensures(f, (), r),
{
    f()
}

/// The payload of a frame, text or bytes.
#[derive(Debug, PartialEq)]
pub enum Payload<'a> {
    Str(Cow<'a, str>),
    Bytes(Cow<'a, [u8]>),
}

/// The payload of a frame as a mathematical value.
pub enum PayloadView {
    Str(Seq<char>),
    Bytes(Seq<u8>),
}

impl PayloadView {
    /// The bytes of the payload.
    pub open spec fn bytes(self) -> Seq<u8> {
        match self {
            PayloadView::Str(text) => vstd::utf8::encode_utf8(text),
            PayloadView::Bytes(bytes) => bytes,
        }
    }

    /// The text of the payload.
    pub open spec fn text(self) -> Seq<char> {
        match self {
            PayloadView::Str(text) => text,
            PayloadView::Bytes(bytes) => lossy_text(bytes),
        }
    }
}

impl<'a> View for Payload<'a> {
    type V = PayloadView;

    open spec fn view(&self) -> PayloadView {
        match self {
            Payload::Str(x) => PayloadView::Str(x@),
            Payload::Bytes(x) => PayloadView::Bytes(x@),
        }
    }
}

/// The bytes that are borrowed or owned.
pub(crate) fn cow_bytes<'b, 'a>(value: &'b Cow<'a, [u8]>) -> (r: &'b [u8])
    ensures
        r@ == value@,
{
    match value {
        Cow::Borrowed(x) => x,
        Cow::Owned(x) => x.as_slice(),
    }
}

/// The text that is borrowed or owned.
fn cow_str<'b, 'a>(value: &'b Cow<'a, str>) -> (r: &'b str)
    ensures
        r@ == value@,
{
    match value {
        Cow::Borrowed(x) => x,
        Cow::Owned(x) => x.as_str(),
    }
}

fn owned_bytes<'a>(value: Cow<'a, [u8]>) -> (r: Vec<u8>)
    ensures
        r@ == value@,
{
    match value {
        Cow::Borrowed(x) => slice_to_vec(x),
        Cow::Owned(x) => x,
    }
}

fn owned_str<'a>(value: Cow<'a, str>) -> (r: String)
    ensures
        r@ == value@,
{
    match value {
        Cow::Borrowed(x) => x.to_owned(),
        Cow::Owned(x) => x,
    }
}

fn clone_bytes<'a>(value: &Cow<'a, [u8]>) -> (r: Cow<'a, [u8]>)
    ensures
        r@ == value@,
{
    match value {
        Cow::Borrowed(x) => Cow::Borrowed(x),
        Cow::Owned(x) => Cow::Owned(slice_to_vec(x.as_slice())),
    }
}

fn clone_str<'a>(value: &Cow<'a, str>) -> (r: Cow<'a, str>)
    ensures
        r@ == value@,
{
    match value {
        Cow::Borrowed(x) => Cow::Borrowed(x),
        Cow::Owned(x) => Cow::Owned(x.clone()),
    }
}

impl<'a> Clone for Payload<'a> {
    fn clone(&self) -> (r: Self)
        ensures
            r@ == self@,
    {
        match self {
            Self::Str(x) => Payload::Str(clone_str(x)),
            Self::Bytes(x) => Payload::Bytes(clone_bytes(x)),
        }
    }
}

impl<'a> Payload<'a> {
    /// Whether nothing of the payload is borrowed.
    pub open spec fn is_owned(&self) -> bool {
        match self {
            Payload::Str(x) => x is Owned,
            Payload::Bytes(x) => x is Owned,
        }
    }

    pub fn as_bytes(&self) -> (r: &[u8])
        ensures
            r@ == self@.bytes(),
    {
        match self {
            Self::Str(x) => cow_str(x).as_bytes(),
            Self::Bytes(x) => cow_bytes(x),
        }
    }

    pub fn into_owned<'b>(self) -> (r: Payload<'b>)
        ensures
            r@ == self@,
            r.is_owned(),
    {
        match self {
            Self::Str(x) => Payload::Str(Cow::Owned(owned_str(x))),
            Self::Bytes(x) => Payload::Bytes(Cow::Owned(owned_bytes(x))),
        }
    }

    /// The bytes of the payload, borrowed where they can be.
    pub fn into_bytes(self) -> (r: Cow<'a, [u8]>)
        ensures
            r@ == self@.bytes(),
            match self {
                Payload::Str(_) => r is Owned,
                Payload::Bytes(x) => r == x,
            },
    {
        match self {
            Payload::Str(x) => Cow::Owned(slice_to_vec(cow_str(&x).as_bytes())),
            Payload::Bytes(x) => x,
        }
    }

    /// The text of the payload, borrowed where it can be.
    pub fn into_text(self) -> (r: Cow<'a, str>)
        ensures
            r@ == self@.text(),
            match self {
                Payload::Str(x) => r == x,
                Payload::Bytes(_) => r is Owned,
            },
    {
        match self {
            Payload::Str(x) => x,
            Payload::Bytes(x) => Cow::Owned(decode_lossy(cow_bytes(&x))),
        }
    }
}

/// A WebSocket frame.
#[derive(Debug, PartialEq)]
pub struct Frame<'a> {
    pub header: FrameHeader,
    pub payload: Payload<'a>,
    pub serialized_header: Option<Vec<u8>>,
}

/// A WebSocket frame as mathematical values.
pub struct FrameView {
    pub header: FrameHeader,
    pub payload: PayloadView,
    pub serialized_header: Option<Seq<u8>>,
}

impl<'a> View for Frame<'a> {
    type V = FrameView;

    open spec fn view(&self) -> FrameView {
        FrameView {
            header: self.header,
            payload: self.payload@,
            serialized_header: match self.serialized_header {
                Some(x) => Some(x@),
                None => None,
            },
        }
    }
}

impl<'a> Clone for Frame<'a> {
    fn clone(&self) -> (r: Self)
        ensures
            r@ == self@,
    {
        let serialized_header = match &self.serialized_header {
            Some(x) => Some(slice_to_vec(x.as_slice())),
            None => None,
        };
        Frame { header: self.header, payload: self.payload.clone(), serialized_header }
    }
}

/// Why a connection is closed. The code is the number that is sent.
#[derive(Debug, PartialEq)]
pub struct CloseFrame<'a> {
    pub code: u16,
    pub reason: Cow<'a, str>,
}

impl<'a> View for CloseFrame<'a> {
    type V = (u16, Seq<char>);

    open spec fn view(&self) -> (u16, Seq<char>) {
        (self.code, self.reason@)
    }
}

impl<'a> Clone for CloseFrame<'a> {
    fn clone(&self) -> (r: Self)
        ensures
            r@ == self@,
    {
        CloseFrame { code: self.code, reason: clone_str(&self.reason) }
    }
}

impl<'a> CloseFrame<'a> {
    /// Whether nothing of the reason is borrowed.
    pub open spec fn is_owned(&self) -> bool {
        self.reason is Owned
    }

    pub fn into_owned<'b>(self) -> (r: CloseFrame<'b>)
        ensures
            r@ == self@,
            r.is_owned(),
    {
        CloseFrame { code: self.code, reason: Cow::Owned(owned_str(self.reason)) }
    }
}

#[derive(Debug, PartialEq)]
pub enum Message<'a> {
    Text(Cow<'a, str>),
    Binary(Cow<'a, [u8]>),
    Ping(Cow<'a, [u8]>),
    Pong(Cow<'a, [u8]>),
    Close(Option<CloseFrame<'a>>),
    Frame(Frame<'a>),
}

/// A WebSocket message as a mathematical value.
pub enum MessageView {
    Text(Seq<char>),
    Binary(Seq<u8>),
    Ping(Seq<u8>),
    Pong(Seq<u8>),
    Close(Option<(u16, Seq<char>)>),
    Frame(FrameView),
}

impl<'a> View for Message<'a> {
    type V = MessageView;

    open spec fn view(&self) -> MessageView {
        match self {
            Message::Text(x) => MessageView::Text(x@),
            Message::Binary(x) => MessageView::Binary(x@),
            Message::Ping(x) => MessageView::Ping(x@),
            Message::Pong(x) => MessageView::Pong(x@),
            Message::Close(None) => MessageView::Close(None),
            Message::Close(Some(x)) => MessageView::Close(Some(x@)),
            Message::Frame(x) => MessageView::Frame(x@),
        }
    }
}

impl<'a> Clone for Message<'a> {
    fn clone(&self) -> (r: Self)
        ensures
            r@ == self@,
    {
        match self {
            Self::Text(x) => Message::Text(clone_str(x)),
            Self::Binary(x) => Message::Binary(clone_bytes(x)),
            Self::Ping(x) => Message::Ping(clone_bytes(x)),
            Self::Pong(x) => Message::Pong(clone_bytes(x)),
            Self::Close(None) => Message::Close(None),
            Self::Close(Some(x)) => Message::Close(Some(x.clone())),
            Self::Frame(x) => Message::Frame(x.clone()),
        }
    }
}

/// The bytes that a close frame starts with: the code in network byte order.
pub open spec fn code_bytes(code: u16) -> Seq<u8> {
    seq![(code / 256) as u8, (code % 256) as u8]
}

impl MessageView {
    /// The opcode of the frame that the message is sent in.
    pub open spec fn opcode(self) -> OpCode {
        match self {
            MessageView::Text(_) => OpCode::Data(Data::Text),
            MessageView::Binary(_) => OpCode::Data(Data::Binary),
            MessageView::Ping(_) => OpCode::Control(Control::Ping),
            MessageView::Pong(_) => OpCode::Control(Control::Pong),
            MessageView::Close(_) => OpCode::Control(Control::Close),
            MessageView::Frame(frame) => frame.header.opcode,
        }
    }

    /// The bytes of the message before they are masked.
    pub open spec fn bytes(self) -> Seq<u8> {
        match self {
            MessageView::Text(text) => vstd::utf8::encode_utf8(text),
            MessageView::Binary(bytes) => bytes,
            MessageView::Ping(bytes) => bytes,
            MessageView::Pong(bytes) => bytes,
            MessageView::Close(None) => Seq::empty(),
            MessageView::Close(Some((code, reason))) => code_bytes(code) + vstd::utf8::encode_utf8(
                reason,
            ),
            MessageView::Frame(frame) => frame.payload.bytes(),
        }
    }
}

/// Each byte combined with the byte of the mask that is its turn.
pub open spec fn masked(bytes: Seq<u8>, mask: [u8; 4]) -> Seq<u8> {
    Seq::new(bytes.len(), |i: int| bytes[i] ^ mask@[i % 4])
}

/// Combine each byte with the byte of the mask that is its turn.
pub fn apply_mask(buf: &mut Vec<u8>, mask: &[u8; 4])
    ensures
        final(buf)@ == masked(old(buf)@, *mask),
{
    let mut i: usize = 0;
    while i < buf.len()
        invariant
            i <= buf@.len() == old(buf)@.len(),
            forall|k: int| 0 <= k < i ==> buf@[k] == old(buf)@[k] ^ mask@[k % 4],
            forall|k: int| i <= k < buf@.len() ==> buf@[k] == old(buf)@[k],
        decreases buf@.len() - i,
    {
        let byte: u8 = buf[i] ^ mask[i % 4];
        buf.set(i, byte);
        i = i + 1;
    }
    assert(buf@ =~= masked(old(buf)@, *mask));
}

/// Masking twice with the same mask gives the bytes back.
pub proof fn mask_undoes_itself(bytes: Seq<u8>, mask: [u8; 4])
    ensures
        masked(masked(bytes, mask), mask) == bytes,
{
    assert forall|i: int| 0 <= i < bytes.len() implies (#[trigger] masked(masked(bytes, mask), mask)[i])
        == bytes[i] by {
        let b = bytes[i];
        let m = mask@[i % 4];
        assert((b ^ m) ^ m == b) by (bit_vector);
    }
    assert(masked(masked(bytes, mask), mask) =~= bytes);
}

/// The header of the frame that a message is sent in with that mask.
pub open spec fn masked_header(opcode: OpCode, mask: [u8; 4]) -> FrameHeader {
    FrameHeader {
        is_final: true,
        rsv1: false,
        rsv2: false,
        rsv3: false,
        opcode,
        mask: Some(mask),
    }
}

/// The frame that a message is sent in with that mask. A message that is a frame is sent as it is.
pub open spec fn frame_of(message: MessageView, mask: [u8; 4]) -> FrameView {
    match message {
        MessageView::Frame(frame) => frame,
        _ => {
            let header = masked_header(message.opcode(), mask);
            FrameView {
                header,
                payload: PayloadView::Bytes(masked(message.bytes(), mask)),
                serialized_header: Some(
                    crate::websocket::coding::header_bytes(
                        header.coded(),
                        message.bytes().len() as u64,
                    ),
                ),
            }
        },
    }
}

impl<'a> Message<'a> {
    /// Whether nothing of the message is borrowed.
    pub open spec fn is_owned(&self) -> bool {
        match self {
            Message::Text(x) => x is Owned,
            Message::Binary(x) => x is Owned,
            Message::Ping(x) => x is Owned,
            Message::Pong(x) => x is Owned,
            Message::Close(None) => true,
            Message::Close(Some(x)) => x.is_owned(),
            Message::Frame(x) => x.is_owned(),
        }
    }

    pub fn into_owned<'b>(self) -> (r: Message<'b>)
        ensures
            r@ == self@,
            r.is_owned(),
    {
        match self {
            Self::Text(x) => Message::Text(Cow::Owned(owned_str(x))),
            Self::Binary(x) => Message::Binary(Cow::Owned(owned_bytes(x))),
            Self::Ping(x) => Message::Ping(Cow::Owned(owned_bytes(x))),
            Self::Pong(x) => Message::Pong(Cow::Owned(owned_bytes(x))),
            Self::Close(None) => Message::Close(None),
            Self::Close(Some(x)) => Message::Close(Some(x.into_owned())),
            Self::Frame(x) => Message::Frame(x.into_owned()),
        }
    }
}

impl<'a> Frame<'a> {
    /// Whether nothing of the frame is borrowed.
    pub open spec fn is_owned(&self) -> bool {
        self.payload.is_owned()
    }

    pub fn into_owned<'b>(self) -> (r: Frame<'b>)
        ensures
            r@ == self@,
            r.is_owned(),
    {
        Frame {
            header: self.header,
            payload: self.payload.into_owned(),
            serialized_header: self.serialized_header,
        }
    }

    /// Put a message in a frame that is masked with the given mask.
    pub fn with_mask(value: Message<'a>, mask: [u8; 4]) -> (r: Self)
        ensures
            r@ == frame_of(value@, mask),
            !(value@ is Frame) ==> r@.serialized_header->0.len() <= 14 && forall|rest: Seq<u8>| #[trigger]
                crate::websocket::coding::tungstenite_header(r@.serialized_header->0 + rest) == Ok::<
                    _,
                    Seq<char>,
                >(
                    Some(
                        (
                            r@.header.coded(),
                            r@.serialized_header->0.len(),
                            value@.bytes().len() as u64,
                        ),
                    ),
                ),
    {
        let ghost message = value@;
        let (opcode, mut payload) = match value {
            Message::Frame(x) => return x,
            Message::Text(x) => (OpCode::Data(Data::Text), slice_to_vec(cow_str(&x).as_bytes())),
            Message::Binary(x) => (OpCode::Data(Data::Binary), owned_bytes(x)),
            Message::Ping(x) => (OpCode::Control(Control::Ping), owned_bytes(x)),
            Message::Pong(x) => (OpCode::Control(Control::Pong), owned_bytes(x)),
            Message::Close(x) => {
                let mut payload: Vec<u8> = Vec::new();
                if let Some(x) = x {
                    payload.push((x.code / 256) as u8);
                    payload.push((x.code % 256) as u8);
                    payload.extend_from_slice(cow_str(&x.reason).as_bytes());
                    assert(payload@ =~= message.bytes());
                }
                (OpCode::Control(Control::Close), payload)
            },
        };
        assert(payload@ =~= message.bytes());
        apply_mask(&mut payload, &mask);
        let mut header = FrameHeader::new(opcode);
        header.mask = Some(mask);
        let serialized_header = format_header(&header, payload.len() as u64);
        Frame {
            header,
            payload: Payload::Bytes(Cow::Owned(payload)),
            serialized_header: Some(serialized_header),
        }
    }

    /// Put a message in a frame that is masked with a random mask.
    pub fn try_from(value: Message<'a>) -> (r: Result<Self, Error>)
        ensures
            r matches Ok(frame) && exists|mask: [u8; 4]|
                is_random_mask(mask) && frame@ == #[trigger] frame_of(value@, mask),
            !(value@ is Frame) ==> r->Ok_0@.serialized_header->0.len() <= 14,
    {
        let mask = mask_by(random_mask);
        assert(is_random_mask(mask));
        Ok(Frame::with_mask(value, mask))
    }
}

/// What the payload of a close frame says: nothing, or a code and a reason.
pub open spec fn close_frame(payload: Seq<u8>) -> Option<Option<(u16, Seq<char>)>> {
    if payload.len() == 0 {
        Some(None)
    } else if payload.len() == 1 {
        None
    } else {
        Some(Some(((payload[0] * 256 + payload[1]) as u16, lossy_text(payload.skip(2)))))
    }
}

/// The close frame that a payload is.
pub fn parse_close_frame<'a>(payload: &[u8]) -> (r: Result<Option<CloseFrame<'a>>, Error>)
    ensures
        match close_frame(payload@) {
            Some(None) => r matches Ok(x) && x is None,
            Some(Some(close)) => r matches Ok(Some(x)) && x@ == close,
            None => crate::error::fails(r, ErrorKind::InvalidData, "Invalid close sequence"@),
        },
{
    if payload.len() == 0 {
        return Ok(None);
    }
    if payload.len() == 1 {
        return Err(Error::new(ErrorKind::InvalidData, "Invalid close sequence"));
    }
    let code: u16 = payload[0] as u16 * 256 + payload[1] as u16;
    let reason = slice_subrange(payload, 2, payload.len());
    assert(reason@ =~= payload@.skip(2));
    Ok(Some(CloseFrame { code, reason: Cow::Owned(decode_lossy(reason)) }))
}

/// The message that a frame is, or the kind and the text of the error when it is none.
pub open spec fn message_of(opcode: OpCode, payload: PayloadView) -> Result<
    MessageView,
    (ErrorKind, Seq<char>),
> {
    match opcode {
        OpCode::Data(Data::Text) => Ok(MessageView::Text(payload.text())),
        OpCode::Data(Data::Binary) => Ok(MessageView::Binary(payload.bytes())),
        OpCode::Data(Data::Continue) => Err((ErrorKind::Other, "unrecognized opcode Data(Continue)"@)),
        OpCode::Data(Data::Reserved(code)) => Err(
            (
                ErrorKind::Other,
                "unrecognized opcode Data(Reserved("@ + crate::http::decimal::digits(code as nat) + "))"@,
            ),
        ),
        OpCode::Control(Control::Reserved(code)) => Err(
            (
                ErrorKind::Other,
                "unrecognized opcode Control(Reserved("@ + crate::http::decimal::digits(code as nat)
                    + "))"@,
            ),
        ),
        OpCode::Control(Control::Ping) => Ok(MessageView::Ping(payload.bytes())),
        OpCode::Control(Control::Pong) => Ok(MessageView::Pong(payload.bytes())),
        OpCode::Control(Control::Close) => match close_frame(payload.bytes()) {
            Some(close) => Ok(MessageView::Close(close)),
            None => Err((ErrorKind::InvalidData, "Invalid close sequence"@)),
        },
    }
}

/// Whether a result is the message that a frame is.
pub open spec fn is_message(
    expected: Result<MessageView, (ErrorKind, Seq<char>)>,
    r: Result<Message, Error>,
) -> bool {
    match expected {
        Ok(message) => r matches Ok(x) && x@ == message,
        Err((kind, text)) => crate::error::fails(r, kind, text),
    }
}

impl<'a> Message<'a> {
    /// The message that a frame is.
    pub fn try_from(value: Frame<'a>) -> (r: Result<Self, Error>)
        ensures
            is_message(message_of(value@.header.opcode, value@.payload), r),
    {
        match value.header.opcode {
            OpCode::Data(Data::Text) => Ok(Message::Text(value.payload.into_text())),
            OpCode::Data(Data::Binary) => Ok(Message::Binary(value.payload.into_bytes())),
            OpCode::Control(Control::Ping) => Ok(Message::Ping(value.payload.into_bytes())),
            OpCode::Control(Control::Pong) => Ok(Message::Pong(value.payload.into_bytes())),
            OpCode::Control(Control::Close) => {
                let close = parse_close_frame(value.payload.as_bytes())?;
                Ok(Message::Close(close))
            },
            OpCode::Data(Data::Continue) => Err(
                Error::new(ErrorKind::Other, "unrecognized opcode Data(Continue)"),
            ),
            OpCode::Data(Data::Reserved(code)) => {
                let mut text = "unrecognized opcode Data(Reserved(".to_owned();
                text.append(format_digits(code as usize).as_str());
                text.append("))");
                Err(Error::new(ErrorKind::Other, text.as_str()))
            },
            OpCode::Control(Control::Reserved(code)) => {
                let mut text = "unrecognized opcode Control(Reserved(".to_owned();
                text.append(format_digits(code as usize).as_str());
                text.append("))");
                Err(Error::new(ErrorKind::Other, text.as_str()))
            },
        }
    }
}

/// A message is read back from its bytes.
pub proof fn message_is_read_back(message: MessageView)
    requires
        !(message is Frame),
    ensures
        message_of(message.opcode(), PayloadView::Bytes(message.bytes())) == Ok::<
            MessageView,
            (ErrorKind, Seq<char>),
        >(message),
{
    match message {
        MessageView::Text(text) => {
            vstd::utf8::encode_utf8_valid_utf8(text);
            vstd::utf8::encode_utf8_decode_utf8(text);
        },
        MessageView::Close(Some((code, reason))) => {
            vstd::utf8::encode_utf8_valid_utf8(reason);
            vstd::utf8::encode_utf8_decode_utf8(reason);
            let bytes = message.bytes();
            assert(bytes.skip(2) =~= vstd::utf8::encode_utf8(reason));
            assert((bytes[0] * 256 + bytes[1]) as u16 == code);
        },
        _ => {},
    }
}

/// A peer that applies the mask of a frame to its payload reads the message that was put in the frame.
pub proof fn unmasked_frame_is_message(message: MessageView, mask: [u8; 4])
    requires
        !(message is Frame),
    ensures
        frame_of(message, mask).header.mask == Some(mask),
        masked(frame_of(message, mask).payload.bytes(), mask) == message.bytes(),
        message_of(
            frame_of(message, mask).header.opcode,
            PayloadView::Bytes(masked(frame_of(message, mask).payload.bytes(), mask)),
        ) == Ok::<MessageView, (ErrorKind, Seq<char>)>(message),
{
    mask_undoes_itself(message.bytes(), mask);
    message_is_read_back(message);
}

/// Each byte is combined with the byte of the mask that is its turn, and by nothing else.
pub proof fn mask_is_applied_by_turns(bytes: Seq<u8>, mask: [u8; 4], i: int)
    requires
        0 <= i < bytes.len(),
    ensures
        masked(bytes, mask).len() == bytes.len(),
        masked(bytes, mask)[i] == bytes[i] ^ mask@[i % 4],
{
}

/// A text is sent as the bytes that encode it, and data as it is. A close frame has no bytes, or the code, the higher byte
/// first, and the reason. Each kind of message has its opcode.
pub proof fn message_has_its_bytes(text: Seq<char>, data: Seq<u8>, code: u16)
    ensures
        MessageView::Text(text).bytes() == vstd::utf8::encode_utf8(text),
        MessageView::Binary(data).bytes() == data,
        MessageView::Ping(data).bytes() == data,
        MessageView::Pong(data).bytes() == data,
        MessageView::Close(None).bytes().len() == 0,
        MessageView::Close(Some((code, text))).bytes().skip(2) == vstd::utf8::encode_utf8(text),
        MessageView::Close(Some((code, text))).bytes()[0] * 256 + MessageView::Close(Some((code, text))).bytes()[1]
            == code,
        MessageView::Text(text).opcode().number() == 1,
        MessageView::Binary(data).opcode().number() == 2,
        MessageView::Close(None).opcode().number() == 8,
        MessageView::Close(Some((code, text))).opcode().number() == 8,
        MessageView::Ping(data).opcode().number() == 9,
        MessageView::Pong(data).opcode().number() == 10,
{
    assert(MessageView::Close(Some((code, text))).bytes().skip(2) =~= vstd::utf8::encode_utf8(text));
}

/// The bytes of a payload are those that encode its text, or those that it is; and its text is what its bytes encode.
pub proof fn payload_is_text_or_bytes(text: Seq<char>, bytes: Seq<u8>)
    ensures
        PayloadView::Str(text).bytes() == vstd::utf8::encode_utf8(text),
        PayloadView::Str(text).text() == text,
        PayloadView::Bytes(bytes).bytes() == bytes,
        PayloadView::Bytes(vstd::utf8::encode_utf8(text)).text() == text,
        PayloadView::Bytes(PayloadView::Str(text).bytes()).text() == text,
{
    vstd::utf8::encode_utf8_valid_utf8(text);
    vstd::utf8::encode_utf8_decode_utf8(text);
}

/// The opcode of a frame tells which message it is, and its payload is all of the message. A close frame has a code of two
/// bytes, the higher one first, and the reason behind it, or nothing. Other opcodes are errors.
pub proof fn frame_is_message_of_its_opcode(text: Seq<char>, bytes: Seq<u8>, reserved: u8)
    ensures
        message_of(OpCode::Data(Data::Text), PayloadView::Bytes(vstd::utf8::encode_utf8(text))) == Ok::<
            _,
            (ErrorKind, Seq<char>),
        >(MessageView::Text(text)),
        message_of(OpCode::Data(Data::Binary), PayloadView::Bytes(bytes)) == Ok::<_, (ErrorKind, Seq<char>)>(
            MessageView::Binary(bytes),
        ),
        message_of(OpCode::Control(Control::Ping), PayloadView::Bytes(bytes)) == Ok::<_, (ErrorKind, Seq<char>)>(
            MessageView::Ping(bytes),
        ),
        message_of(OpCode::Control(Control::Pong), PayloadView::Bytes(bytes)) == Ok::<_, (ErrorKind, Seq<char>)>(
            MessageView::Pong(bytes),
        ),
        match message_of(OpCode::Control(Control::Close), PayloadView::Bytes(bytes)) {
            Ok(MessageView::Close(None)) => bytes.len() == 0,
            Ok(MessageView::Close(Some((code, reason)))) => {
                &&& bytes.len() >= 2
                &&& code == bytes[0] * 256 + bytes[1]
                &&& vstd::utf8::valid_utf8(bytes.skip(2)) ==> vstd::utf8::encode_utf8(reason) == bytes.skip(2)
            },
            Ok(_) => false,
            Err((kind, message)) => bytes.len() == 1 && kind == ErrorKind::InvalidData && message
                == "Invalid close sequence"@,
        },
        message_of(OpCode::Data(Data::Continue), PayloadView::Bytes(bytes)) is Err,
        message_of(OpCode::Data(Data::Reserved(reserved)), PayloadView::Bytes(bytes)) is Err,
        message_of(OpCode::Control(Control::Reserved(reserved)), PayloadView::Bytes(bytes)) is Err,
{
    vstd::utf8::encode_utf8_valid_utf8(text);
    vstd::utf8::encode_utf8_decode_utf8(text);
    if bytes.len() >= 2 && vstd::utf8::valid_utf8(bytes.skip(2)) {
        vstd::utf8::decode_utf8_encode_utf8(bytes.skip(2));
    }
}

/// A message is what its parts are.
pub proof fn message_is_its_parts(message: Message)
    ensures
        match message {
            Message::Text(x) => message@ == MessageView::Text(x@),
            Message::Binary(x) => message@ == MessageView::Binary(x@),
            Message::Ping(x) => message@ == MessageView::Ping(x@),
            Message::Pong(x) => message@ == MessageView::Pong(x@),
            Message::Close(None) => message@ == MessageView::Close(None),
            Message::Close(Some(x)) => message@ == MessageView::Close(Some((x.code, x.reason@))),
            Message::Frame(x) => {
                &&& message@ matches MessageView::Frame(frame)
                &&& frame.header == x.header
                &&& x.payload matches Payload::Str(text) ==> frame.payload == PayloadView::Str(text@)
                &&& x.payload matches Payload::Bytes(bytes) ==> frame.payload == PayloadView::Bytes(bytes@)
                &&& x.serialized_header matches Some(bytes) ==> frame.serialized_header == Some(bytes@)
                &&& x.serialized_header is None ==> frame.serialized_header is None
            },
        },
{
}

/// A message that is a frame is sent as it is. Any other message is sent in one final frame, which is masked, has no
/// reserved flag, and has the opcode of the message and its bytes as payload: a peer reads them, whatever follows.
pub proof fn framed_message_is_read_by_peer(message: MessageView, mask: [u8; 4], rest: Seq<u8>)
    requires
        !(message is Frame),
        message.bytes().len() <= u64::MAX,
    ensures
        frame_of(message, mask).serialized_header matches Some(header) && {
            let bytes = header + frame_of(message, mask).payload.bytes();
            &&& crate::websocket::coding::peer_frame(bytes + rest) matches Some(frame)
            &&& frame.is_final
            &&& frame.reserved == 0
            &&& frame.is_masked
            &&& frame.code == message.opcode().number()
            &&& frame.payload == message.bytes()
            &&& frame.size == bytes.len()
        },
{
    let header = masked_header(message.opcode(), mask).coded();
    let payload = masked(message.bytes(), mask);
    match message {
        MessageView::Frame(_) => {},
        _ => {
            assert(header.code < 16);
        },
    }
    crate::websocket::coding::written_frame_is_read_by_peer(header, payload, rest);
    let bytes = crate::websocket::coding::header_bytes(header, payload.len() as u64) + payload;
    let frame = crate::websocket::coding::peer_frame(bytes + rest)->0;
    assert forall|i: int| 0 <= i < payload.len() implies #[trigger] frame.payload[i] == message.bytes()[i] by {
        let b = message.bytes()[i];
        let m = mask@[i % 4];
        assert((b ^ m) ^ m == b) by (bit_vector);
    }
    assert(frame.payload =~= message.bytes());
}

/// A message that is a frame is sent in that frame, whatever the mask.
pub proof fn frame_that_is_message_is_kept(frame: FrameView, mask: [u8; 4])
    ensures
        frame_of(MessageView::Frame(frame), mask) == frame,
{
}

/// A result is a message when the frame is one, and then that one; otherwise it is the error that says why.
pub proof fn result_is_message_or_error(expected: Result<MessageView, (ErrorKind, Seq<char>)>, r: Result<Message, Error>)
    requires
        is_message(expected, r),
    ensures
        expected is Ok <==> r is Ok,
        r matches Ok(message) ==> expected->Ok_0 == message@,
        r matches Err(e) ==> expected->Err_0 == (e.kind, e.message@),
{
}

/// A message of which nothing is borrowed owns its text or its bytes.
pub proof fn owned_message_borrows_nothing(message: Message)
    requires
        message.is_owned(),
    ensures
        match message {
            Message::Text(x) => x is Owned,
            Message::Binary(x) => x is Owned,
            Message::Ping(x) => x is Owned,
            Message::Pong(x) => x is Owned,
            Message::Close(Some(x)) => x.reason is Owned,
            Message::Close(None) => true,
            Message::Frame(x) => match x.payload {
                Payload::Str(text) => text is Owned,
                Payload::Bytes(bytes) => bytes is Owned,
            },
        },
{
}

} // verus!
