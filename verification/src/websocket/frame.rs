//! Serialization and deserialization of WebSocket messages
use std::borrow::Cow;

use vstd::prelude::*;
use vstd::slice::slice_subrange;

use crate::buffer::GrowableCircleBuf;
use crate::error::{Error, ErrorKind};
use crate::frame::{DeserializeFrame, SerializeFrame, SizedFrame};
use crate::websocket::coding::{parse_header, Data, FrameHeader, OpCode};
use crate::websocket::message::{Frame, Message, Payload};
use crate::PublishOutcome;

verus! {

/// The payloads of the fragments of a message that were received so far, with the opcode of the first.
pub struct FragmentBuffer {
    pub opcode: Data,
    pub payload: Vec<u8>,
}

impl View for FragmentBuffer {
    type V = (Data, Seq<u8>);

    open spec fn view(&self) -> (Data, Seq<u8>) {
        (self.opcode, self.payload@)
    }
}

impl FragmentBuffer {
    pub fn new(opcode: Data) -> (r: Self)
        ensures
            r@ == (opcode, Seq::<u8>::empty()),
    {
        Self { opcode, payload: Vec::new() }
    }

    pub fn append(&mut self, frame: &[u8])
        ensures
            final(self)@ == (old(self)@.0, old(self)@.1 + frame@),
    {
        self.payload.extend_from_slice(frame);
    }
}

/// Whether the data holds a complete frame that is the last of its message, with only complete frames before it; or the
/// text of the error when a header is not valid.
pub open spec fn has_final_frame(data: Seq<u8>) -> Result<bool, Seq<char>>
    decreases data.len(),
{
    match crate::websocket::coding::tungstenite_header(data) {
        Err(text) => Err(text),
        Ok(None) => Ok(false),
        Ok(Some((header, size, len))) => if size == 0 || size + len > data.len() {
            Ok(false)
        } else if header.is_final {
            Ok(true)
        } else {
            has_final_frame(data.skip(size + len))
        },
    }
}

/// The message with the size of the data that it took.
pub open spec fn sized(
    message: Result<crate::websocket::message::MessageView, (ErrorKind, Seq<char>)>,
    size: int,
) -> Result<(crate::websocket::message::MessageView, int), (ErrorKind, Seq<char>)> {
    match message {
        Ok(message) => Ok((message, size)),
        Err(e) => Err(e),
    }
}

/// The fragments with the payload of another one behind them.
pub open spec fn joined(fragments: Option<(Data, Seq<u8>)>, opcode: Data, payload: Seq<u8>) -> (
    Data,
    Seq<u8>,
) {
    match fragments {
        Some((first, start)) => (first, start + payload),
        None => (opcode, payload),
    }
}

/// The next message of the data, with the size of the data that it took, when `fragments` were received before; and the
/// fragments that are kept. The payload of a data frame that is not the last of its message is kept, and goes before
/// those of the frames behind it. A control frame may stand between them, and is a message of its own.
pub open spec fn next_message(fragments: Option<(Data, Seq<u8>)>, data: Seq<u8>) -> (
    Option<(Data, Seq<u8>)>,
    Result<(crate::websocket::message::MessageView, int), (ErrorKind, Seq<char>)>,
)
    decreases data.len(),
{
    match crate::websocket::coding::tungstenite_header(data) {
        Err(text) => (fragments, Err((ErrorKind::InvalidData, text))),
        Ok(None) => (fragments, Err((ErrorKind::InvalidData, "incomplete frame"@))),
        Ok(Some((header, size, len))) => {
            let end = size + len;
            let payload = data.subrange(size as int, end);
            if size == 0 || end > data.len() {
                (fragments, Err((ErrorKind::InvalidData, "incomplete frame"@)))
            } else {
                match crate::websocket::coding::opcode_of(header.code) {
                    Some(OpCode::Data(opcode)) => {
                        let (first, all) = joined(fragments, opcode, payload);
                        if header.is_final {
                            (
                                None,
                                sized(
                                    crate::websocket::message::message_of(
                                        OpCode::Data(first),
                                        crate::websocket::message::PayloadView::Bytes(all),
                                    ),
                                    end,
                                ),
                            )
                        } else {
                            let (kept, next) = next_message(Some((first, all)), data.skip(end));
                            (
                                kept,
                                match next {
                                    Ok((message, n)) => Ok((message, end + n)),
                                    Err(e) => Err(e),
                                },
                            )
                        }
                    },
                    Some(OpCode::Control(opcode)) => if header.is_final {
                        (
                            fragments,
                            sized(
                                crate::websocket::message::message_of(
                                    OpCode::Control(opcode),
                                    crate::websocket::message::PayloadView::Bytes(payload),
                                ),
                                end,
                            ),
                        )
                    } else {
                        (
                            fragments,
                            Err(
                                (
                                    ErrorKind::InvalidData,
                                    "WebSocket encounted fragmented control frame"@,
                                ),
                            ),
                        )
                    },
                    None => (fragments, Err((ErrorKind::InvalidData, "invalid opcode"@))),
                }
            }
        },
    }
}

/// A [`DeserializeFrame`] impl for WebSocket where [`DeserializeFrame::DeserializedFrame`] is a [`Message`].
pub struct WebSocketFrameDeserializer {
    /// optionally used to assemble fragmented data frames
    fragments: Option<FragmentBuffer>,
}

impl WebSocketFrameDeserializer {
    /// The fragments of a message that were received so far.
    pub closed spec fn kept(&self) -> Option<(Data, Seq<u8>)> {
        match self.fragments {
            Some(fragments) => Some(fragments@),
            None => None,
        }
    }

    pub fn new() -> (r: Self)
        ensures
            r.kept() is None,
            r.progress() == 0,
    {
        Self { fragments: None }
    }
}

impl Default for WebSocketFrameDeserializer {
    fn default() -> (r: Self)
        ensures
            r.kept() is None,
    {
        Self::new()
    }
}

/// The message of a frame without a serialized header.
fn received_message<'a>(header: FrameHeader, payload: Cow<'a, [u8]>) -> (r: Result<Message<'a>, Error>)
    ensures
        crate::websocket::message::is_message(
            crate::websocket::message::message_of(
                header.opcode,
                crate::websocket::message::PayloadView::Bytes(payload@),
            ),
            r,
        ),
{
    Message::try_from(Frame { header, serialized_header: None, payload: Payload::Bytes(payload) })
}

impl DeserializeFrame for WebSocketFrameDeserializer {
    type DeserializedFrame<'a> = Message<'a>;

    open spec fn progress(&self) -> nat {
        0
    }

    open spec fn ready(&self, data: Seq<u8>) -> bool {
        has_final_frame(data) == Ok::<bool, Seq<char>>(true)
    }

    open spec fn checks(&self, data: Seq<u8>, eof: bool, post: &Self, r: Result<bool, Error>) -> bool {
        &&& *post == *self
        &&& match has_final_frame(data) {
            Ok(complete) => r == Ok::<bool, Error>(complete),
            Err(text) => crate::error::fails(r, ErrorKind::InvalidData, text),
        }
    }

    open spec fn deserializes<'a>(
        &self,
        data: Seq<u8>,
        post: &Self,
        r: Result<SizedFrame<Self::DeserializedFrame<'a>>, Error>,
    ) -> bool {
        let (kept, next) = next_message(self.kept(), data);
        &&& post.kept() == kept
        &&& match next {
            Ok((message, size)) => r matches Ok(frame) && frame.frame@ == message && frame.size == size,
            Err((kind, text)) => crate::error::fails(r, kind, text),
        }
    }

    fn check_deserialize_frame(&mut self, data: &[u8], _eof: bool) -> Result<bool, Error> {
        let mut position: usize = 0;
        assert(data@.skip(0) =~= data@);
        loop
            invariant
                position <= data@.len(),
                *self == *old(self),
                has_final_frame(data@) == has_final_frame(data@.skip(position as int)),
            decreases data@.len() - position,
        {
            let rest = slice_subrange(data, position, data.len());
            assert(rest@ =~= data@.skip(position as int));
            match parse_header(rest)? {
                None => return Ok(false),
                Some(parsed) => {
                    if parsed.len <= (rest.len() - parsed.size) as u64 {
                        if parsed.header.is_final {
                            // received at least one final frame
                            return Ok(true);
                        }
                        let end: usize = parsed.size + parsed.len as usize;
                        assert(rest@.skip(end as int) =~= data@.skip(position + end));
                        position = position + end;
                    } else {
                        return Ok(false);
                    }
                },
            }
        }
    }

    fn deserialize_frame<'a>(&'a mut self, data: &'a [u8]) -> Result<
        SizedFrame<Self::DeserializedFrame<'a>>,
        Error,
    > {
        let mut position: usize = 0;
        assert(data@.skip(0) =~= data@);
        let ghost all = next_message(self.kept(), data@);
        loop
            invariant
                position <= data@.len(),
                all == next_message(old(self).kept(), data@),
                has_final_frame(data@.skip(position as int)) == Ok::<bool, Seq<char>>(true),
                all.0 == next_message(self.kept(), data@.skip(position as int)).0,
                all.1 == (match next_message(self.kept(), data@.skip(position as int)).1 {
                    Ok((message, n)) => Ok((message, position + n)),
                    Err(e) => Err(e),
                }),
            decreases data@.len() - position,
        {
            let rest = slice_subrange(data, position, data.len());
            assert(rest@ =~= data@.skip(position as int));
            let parsed = match parse_header(rest)? {
                Some(parsed) => parsed,
                None => vstd::pervasive::unreached(),
            };
            let header = parsed.header;
            let end: usize = parsed.size + parsed.len as usize;
            let payload = slice_subrange(rest, parsed.size, end);
            match header.opcode {
                OpCode::Data(opcode) => {
                    if header.is_final {
                        // final, return assembled data fragments
                        match self.fragments.take() {
                            None => {
                                // single fragment data, return borrowed result
                                let message = received_message(header, Cow::Borrowed(payload))?;
                                return Ok(SizedFrame::new(message, position + end));
                            },
                            Some(mut fragments) => {
                                // append to other fragments, return owned result
                                fragments.append(payload);
                                let header = FrameHeader::new(OpCode::Data(fragments.opcode));
                                let message = received_message(header, Cow::Owned(fragments.payload))?;
                                return Ok(SizedFrame::new(message, position + end));
                            },
                        }
                    }
                    // not final, append pending data fragment to state
                    let mut fragments = match self.fragments.take() {
                        Some(fragments) => fragments,
                        None => FragmentBuffer::new(opcode),
                    };
                    fragments.append(payload);
                    self.fragments = Some(fragments);
                    assert(rest@.skip(end as int) =~= data@.skip(position + end));
                    position = position + end;
                },
                OpCode::Control(_) => {
                    if !header.is_final {
                        return Err(
                            Error::new(
                                ErrorKind::InvalidData,
                                "WebSocket encounted fragmented control frame",
                            ),
                        );
                    }
                    // return the control frame
                    let message = received_message(header, Cow::Borrowed(payload))?;
                    return Ok(SizedFrame::new(message, position + end));
                },
            }
        }
    }
}

/// A [`SerializeFrame`] impl for WebSocket where [`SerializeFrame::SerializedFrame`] is a [`Message`].
pub struct WebSocketFrameSerializer {}

impl WebSocketFrameSerializer {
    pub fn new() -> (r: Self) {
        Self {  }
    }
}

impl Default for WebSocketFrameSerializer {
    fn default() -> (r: Self) {
        Self::new()
    }
}

/// Whether writing a frame may lead to `post_buffer` with the result `r`. A frame that is not written is handed back as
/// it is, with its mask.
pub open spec fn writes_frame(
    frame: crate::websocket::message::FrameView,
    buffer: &GrowableCircleBuf,
    post_buffer: &GrowableCircleBuf,
    r: Result<PublishOutcome<Message>, Error>,
) -> bool {
    match frame.serialized_header {
        None => {
            &&& crate::error::fails(r, ErrorKind::InvalidData, "frame is missing serialized header"@)
            &&& *post_buffer == *buffer
        },
        Some(header) => {
            let bytes = header + frame.payload.bytes();
            if bytes.len() > usize::MAX {
                &&& crate::error::fails(r, ErrorKind::InvalidData, "frame to serialize exceeds usize"@)
                &&& *post_buffer == *buffer
            } else if buffer.accepts(bytes.len()) {
                &&& r matches Ok(outcome) && outcome is Published
                &&& buffer.writes(bytes, post_buffer)
            } else {
                &&& r matches Ok(PublishOutcome::Incomplete(Message::Frame(rest))) && rest@ == frame
                &&& *post_buffer == *buffer
            }
        },
    }
}

/// Write a frame as a whole, or not at all.
pub fn write_frame<'a>(frame: Frame<'a>, buffer: &mut GrowableCircleBuf) -> (r: Result<
    PublishOutcome<Message<'a>>,
    Error,
>)
    requires
        old(buffer).wf(),
    ensures
        final(buffer).wf(),
        final(buffer).capacity() == old(buffer).capacity(),
        writes_frame(frame@, old(buffer), final(buffer), r),
        // the header and the whole payload are written, or nothing is
        match r {
            Ok(PublishOutcome::Published) => {
                &&& frame@.serialized_header is Some
                &&& final(buffer).pending() == old(buffer).pending() + frame@.serialized_header->0
                    + frame@.payload.bytes()
            },
            _ => final(buffer).pending() == old(buffer).pending(),
        },
{
    let serialized_header = match &frame.serialized_header {
        Some(x) => x,
        None => return Err(
            Error::new(ErrorKind::InvalidData, "frame is missing serialized header"),
        ),
    };
    let payload = frame.payload.as_bytes();
    if serialized_header.len() > usize::MAX - payload.len() {
        return Err(Error::new(ErrorKind::InvalidData, "frame to serialize exceeds usize"));
    }
    let parts: Vec<&[u8]> = vec![serialized_header.as_slice(), payload];
    proof {
        reveal_with_fuel(crate::buffer::joined, 3);
        assert(parts@.drop_last().drop_last() =~= Seq::<&[u8]>::empty());
        assert(crate::buffer::joined(parts@) =~= serialized_header@ + payload@);
    }
    if buffer.try_write(&parts)? {
        assert(buffer.pending() =~= old(buffer).pending() + serialized_header@ + payload@);
        Ok(PublishOutcome::Published)
    } else {
        Ok(PublishOutcome::Incomplete(Message::Frame(frame)))
    }
}

impl SerializeFrame for WebSocketFrameSerializer {
    type SerializedFrame<'a> = Message<'a>;

    open spec fn serializes<'a>(
        &self,
        message: Self::SerializedFrame<'a>,
        buffer: &GrowableCircleBuf,
        post: &Self,
        post_buffer: &GrowableCircleBuf,
        r: Result<PublishOutcome<Self::SerializedFrame<'a>>, Error>,
    ) -> bool {
        exists|mask: [u8; 4]|
            crate::websocket::message::is_random_mask(mask) && writes_frame(
                #[trigger] crate::websocket::message::frame_of(message@, mask),
                buffer,
                post_buffer,
                r,
            )
    }

    fn serialize_frame<'a>(
        &mut self,
        message: Self::SerializedFrame<'a>,
        buffer: &mut GrowableCircleBuf,
    ) -> Result<PublishOutcome<Self::SerializedFrame<'a>>, Error> {
        let frame = Frame::try_from(message)?;
        write_frame(frame, buffer)
    }
}

/// A frame that is not a fragment is the next message, whatever follows it: `header` are bytes that are parsed to an
/// unmasked header for the payload.
pub proof fn whole_frame_is_next_message(opcode: OpCode, header: Seq<u8>, payload: Seq<u8>, rest: Seq<u8>)
    requires
        opcode.is_defined(),
        header.len() > 0,
        payload.len() <= u64::MAX,
        crate::websocket::coding::tungstenite_header(header + (payload + rest)) == Ok::<_, Seq<char>>(
            Some(
                (
                    crate::websocket::coding::plain_header(opcode).coded(),
                    header.len(),
                    payload.len() as u64,
                ),
            ),
        ),
    ensures
        has_final_frame(header + (payload + rest)) == Ok::<bool, Seq<char>>(true),
        next_message(None, header + (payload + rest)) == (
            None::<(Data, Seq<u8>)>,
            sized(
                crate::websocket::message::message_of(
                    opcode,
                    crate::websocket::message::PayloadView::Bytes(payload),
                ),
                (header.len() + payload.len()) as int,
            ),
        ),
{
    let data = header + (payload + rest);
    assert(data.subrange(header.len() as int, (header.len() + payload.len()) as int) =~= payload);
}

/// A message that is sent in one unmasked frame is the next message, whatever follows the frame: `header` are bytes that
/// are parsed to its header.
pub proof fn whole_message_is_next(
    message: crate::websocket::message::MessageView,
    header: Seq<u8>,
    rest: Seq<u8>,
)
    requires
        !(message is Frame),
        header.len() > 0,
        message.bytes().len() <= u64::MAX,
        crate::websocket::coding::tungstenite_header(header + (message.bytes() + rest)) == Ok::<
            _,
            Seq<char>,
        >(
            Some(
                (
                    crate::websocket::coding::plain_header(message.opcode()).coded(),
                    header.len(),
                    message.bytes().len() as u64,
                ),
            ),
        ),
    ensures
        next_message(None, header + (message.bytes() + rest)) == (
            None::<(Data, Seq<u8>)>,
            Ok::<_, (ErrorKind, Seq<char>)>((message, (header.len() + message.bytes().len()) as int)),
        ),
{
    whole_frame_is_next_message(message.opcode(), header, message.bytes(), rest);
    crate::websocket::message::message_is_read_back(message);
}

/// The bytes of frames, each a header and a payload, with other bytes behind them.
pub open spec fn joined_frames(frames: Seq<(Seq<u8>, Seq<u8>)>, rest: Seq<u8>) -> Seq<u8>
    decreases frames.len(),
{
    if frames.len() == 0 {
        rest
    } else {
        frames[0].0 + (frames[0].1 + joined_frames(frames.drop_first(), rest))
    }
}

/// The payloads of frames, one behind the other.
pub open spec fn joined_payloads(frames: Seq<(Seq<u8>, Seq<u8>)>) -> Seq<u8>
    decreases frames.len(),
{
    if frames.len() == 0 {
        Seq::empty()
    } else {
        frames[0].1 + joined_payloads(frames.drop_first())
    }
}

/// How many bytes frames are.
pub open spec fn frames_len(frames: Seq<(Seq<u8>, Seq<u8>)>) -> nat
    decreases frames.len(),
{
    if frames.len() == 0 {
        0
    } else {
        frames[0].0.len() + frames[0].1.len() + frames_len(frames.drop_first())
    }
}

/// Whether frames are the fragments of a message, the first with that opcode: the last frame, and no other, is final, and
/// those behind the first are continuations.
pub open spec fn are_fragments(opcode: Data, frames: Seq<(Seq<u8>, Seq<u8>)>, rest: Seq<u8>) -> bool
    decreases frames.len(),
{
    &&& OpCode::Data(opcode).is_defined()
    &&& frames.len() > 0
    &&& frames[0].0.len() > 0
    &&& frames[0].1.len() <= u64::MAX
    &&& crate::websocket::coding::tungstenite_header(joined_frames(frames, rest)) == Ok::<_, Seq<char>>(
        Some(
            (
                FrameHeader {
                    is_final: frames.len() == 1,
                    ..crate::websocket::coding::plain_header(OpCode::Data(opcode))
                }.coded(),
                frames[0].0.len(),
                frames[0].1.len() as u64,
            ),
        ),
    )
    &&& frames.len() > 1 ==> are_fragments(Data::Continue, frames.drop_first(), rest)
}

proof fn lemma_fragments(
    kept: Option<(Data, Seq<u8>)>,
    opcode: Data,
    frames: Seq<(Seq<u8>, Seq<u8>)>,
    rest: Seq<u8>,
)
    requires
        are_fragments(opcode, frames, rest),
    ensures
        has_final_frame(joined_frames(frames, rest)) == Ok::<bool, Seq<char>>(true),
        next_message(kept, joined_frames(frames, rest)) == (
            None::<(Data, Seq<u8>)>,
            sized(
                crate::websocket::message::message_of(
                    OpCode::Data(joined(kept, opcode, joined_payloads(frames)).0),
                    crate::websocket::message::PayloadView::Bytes(
                        joined(kept, opcode, joined_payloads(frames)).1,
                    ),
                ),
                frames_len(frames) as int,
            ),
        ),
    decreases frames.len(),
{
    let data = joined_frames(frames, rest);
    let (header, payload) = frames[0];
    let tail = joined_frames(frames.drop_first(), rest);
    assert(data.subrange(header.len() as int, (header.len() + payload.len()) as int) =~= payload);
    assert(data.skip((header.len() + payload.len()) as int) =~= tail);
    let (first, all) = joined(kept, opcode, payload);
    if frames.len() == 1 {
        assert(joined_payloads(frames.drop_first()) =~= Seq::<u8>::empty());
        assert(joined_payloads(frames) =~= payload);
        assert(frames_len(frames.drop_first()) == 0);
    } else {
        lemma_fragments(Some((first, all)), Data::Continue, frames.drop_first(), rest);
        assert(joined(kept, opcode, joined_payloads(frames)).1 =~= all + joined_payloads(
            frames.drop_first(),
        ));
    }
}

/// The fragments of a message are put together in their order, whatever follows them: they are the message that one frame
/// with all their payloads would be.
pub proof fn fragments_are_joined(opcode: Data, frames: Seq<(Seq<u8>, Seq<u8>)>, rest: Seq<u8>)
    requires
        are_fragments(opcode, frames, rest),
    ensures
        has_final_frame(joined_frames(frames, rest)) == Ok::<bool, Seq<char>>(true),
        next_message(None, joined_frames(frames, rest)) == (
            None::<(Data, Seq<u8>)>,
            sized(
                crate::websocket::message::message_of(
                    OpCode::Data(opcode),
                    crate::websocket::message::PayloadView::Bytes(joined_payloads(frames)),
                ),
                frames_len(frames) as int,
            ),
        ),
{
    lemma_fragments(None, opcode, frames, rest);
}

/// What writing a frame adds to the unsent bytes: all bytes of its header and all bytes of its payload, or nothing at all.
/// A frame is refused when it has no header, and has to wait only when there is no space for it.
pub proof fn frame_is_written_whole(
    frame: crate::websocket::message::FrameView,
    buffer: GrowableCircleBuf,
    post_buffer: GrowableCircleBuf,
    r: Result<PublishOutcome<Message>, Error>,
)
    requires
        writes_frame(frame, &buffer, &post_buffer, r),
    ensures
        match r {
            Ok(PublishOutcome::Published) => {
                &&& frame.serialized_header matches Some(header)
                &&& post_buffer.pending() == buffer.pending() + header + frame.payload.bytes()
            },
            Ok(PublishOutcome::Incomplete(rest)) => {
                &&& rest matches Message::Frame(x) && x@ == frame
                &&& post_buffer == buffer
                &&& buffer.pending().len() > 0
            },
            Err(e) => {
                &&& e.kind == ErrorKind::InvalidData
                &&& post_buffer == buffer
                &&& frame.serialized_header matches Some(header) ==> header.len() + frame.payload.bytes().len()
                    > usize::MAX
            },
        },
        frame.serialized_header is None ==> r is Err,
{
    if let Ok(PublishOutcome::Published) = r {
        let header = frame.serialized_header->0;
        assert(post_buffer.pending() =~= buffer.pending() + header + frame.payload.bytes());
    }
}

/// What a message that is published adds to the unsent bytes is one frame, which a peer reads back whatever follows it: it
/// is final and masked, its opcode is that of the message, its payload without the mask is the bytes of the message, and it
/// is as long as what was added. A message that is not published adds nothing.
pub proof fn published_message_is_read_by_peer(
    pre: WebSocketFrameSerializer,
    message: Message,
    buffer: GrowableCircleBuf,
    post: WebSocketFrameSerializer,
    post_buffer: GrowableCircleBuf,
    r: Result<PublishOutcome<Message>, Error>,
    rest: Seq<u8>,
)
    requires
        pre.serializes(message, &buffer, &post, &post_buffer, r),
        !(message@ is Frame),
    ensures
        match r {
            Ok(PublishOutcome::Published) => {
                let added = post_buffer.pending().skip(buffer.pending().len() as int);
                &&& post_buffer.pending() == buffer.pending() + added
                &&& crate::websocket::coding::peer_frame(added + rest) matches Some(frame)
                &&& frame.size == added.len()
                &&& frame.is_final
                &&& frame.reserved == 0
                &&& frame.is_masked
                &&& match message@ {
                    crate::websocket::message::MessageView::Text(text) => frame.code == 1 && frame.payload
                        == vstd::utf8::encode_utf8(text),
                    crate::websocket::message::MessageView::Binary(bytes) => frame.code == 2 && frame.payload == bytes,
                    crate::websocket::message::MessageView::Close(close) => {
                        &&& frame.code == 8
                        &&& close is None ==> frame.payload.len() == 0
                        &&& close matches Some((code, reason)) ==> {
                            &&& frame.payload[0] * 256 + frame.payload[1] == code
                            &&& frame.payload.skip(2) == vstd::utf8::encode_utf8(reason)
                        }
                    },
                    crate::websocket::message::MessageView::Ping(bytes) => frame.code == 9 && frame.payload == bytes,
                    crate::websocket::message::MessageView::Pong(bytes) => frame.code == 10 && frame.payload == bytes,
                    crate::websocket::message::MessageView::Frame(_) => true,
                }
            },
            _ => post_buffer.pending() == buffer.pending(),
        },
        buffer.pending().len() == 0 && r is Ok ==> r->Ok_0 is Published,
        r matches Ok(PublishOutcome::Incomplete(again)) ==> again is Frame,
{
    let mask = choose|mask: [u8; 4]|
        crate::websocket::message::is_random_mask(mask) && writes_frame(
            #[trigger] crate::websocket::message::frame_of(message@, mask),
            &buffer,
            &post_buffer,
            r,
        );
    let frame = crate::websocket::message::frame_of(message@, mask);
    frame_is_written_whole(frame, buffer, post_buffer, r);
    if let Ok(PublishOutcome::Published) = r {
        let header = frame.serialized_header->0;
        let added = post_buffer.pending().skip(buffer.pending().len() as int);
        assert(frame.payload.bytes().len() == message@.bytes().len());
        assert(added =~= header + frame.payload.bytes());
        crate::websocket::message::framed_message_is_read_by_peer(message@, mask, rest);
        match message@ {
            crate::websocket::message::MessageView::Text(text) => {
                crate::websocket::message::message_has_its_bytes(text, Seq::empty(), 0);
            },
            crate::websocket::message::MessageView::Binary(bytes) => {
                crate::websocket::message::message_has_its_bytes(Seq::empty(), bytes, 0);
            },
            crate::websocket::message::MessageView::Ping(bytes) => {
                crate::websocket::message::message_has_its_bytes(Seq::empty(), bytes, 0);
            },
            crate::websocket::message::MessageView::Pong(bytes) => {
                crate::websocket::message::message_has_its_bytes(Seq::empty(), bytes, 0);
            },
            crate::websocket::message::MessageView::Close(Some((code, reason))) => {
                crate::websocket::message::message_has_its_bytes(reason, Seq::empty(), code);
            },
            crate::websocket::message::MessageView::Close(None) => {
                crate::websocket::message::message_has_its_bytes(Seq::empty(), Seq::empty(), 0);
            },
            crate::websocket::message::MessageView::Frame(_) => {},
        }
    }
}

/// A frame that was handed back is written as it is when it is tried again: its header and its payload stay the same, also
/// the mask.
pub proof fn frame_handed_back_is_written_as_it_is(
    pre: WebSocketFrameSerializer,
    message: Message,
    buffer: GrowableCircleBuf,
    post: WebSocketFrameSerializer,
    post_buffer: GrowableCircleBuf,
    r: Result<PublishOutcome<Message>, Error>,
)
    requires
        pre.serializes(message, &buffer, &post, &post_buffer, r),
    ensures
        message@ matches crate::websocket::message::MessageView::Frame(frame) ==> match r {
            Ok(PublishOutcome::Published) => {
                &&& frame.serialized_header matches Some(header)
                &&& post_buffer.pending() == buffer.pending() + header + frame.payload.bytes()
            },
            Ok(PublishOutcome::Incomplete(again)) => {
                &&& again matches Message::Frame(x) && x@ == frame
                &&& post_buffer == buffer
            },
            Err(_) => post_buffer == buffer,
        },
{
    let mask = choose|mask: [u8; 4]|
        crate::websocket::message::is_random_mask(mask) && writes_frame(
            #[trigger] crate::websocket::message::frame_of(message@, mask),
            &buffer,
            &post_buffer,
            r,
        );
    frame_is_written_whole(crate::websocket::message::frame_of(message@, mask), buffer, post_buffer, r);
}

/// A control frame between the fragments of a message is a message of its own, and leaves the fragments as they are. It is
/// an error when it is a fragment itself.
pub proof fn control_frame_keeps_fragments(
    kept: Option<(Data, Seq<u8>)>,
    opcode: OpCode,
    is_final: bool,
    header: Seq<u8>,
    payload: Seq<u8>,
    rest: Seq<u8>,
)
    requires
        opcode.is_defined(),
        opcode is Control,
        header.len() > 0,
        payload.len() <= u64::MAX,
        crate::websocket::coding::tungstenite_header(header + (payload + rest)) == Ok::<_, Seq<char>>(
            Some(
                (
                    FrameHeader { is_final, ..crate::websocket::coding::plain_header(opcode) }.coded(),
                    header.len(),
                    payload.len() as u64,
                ),
            ),
        ),
    ensures
        next_message(kept, header + (payload + rest)).0 == kept,
        is_final ==> next_message(kept, header + (payload + rest)).1 == (
        match crate::websocket::message::message_of(
            opcode,
            crate::websocket::message::PayloadView::Bytes(payload),
        ) {
            Ok(message) => Ok::<_, (ErrorKind, Seq<char>)>((message, (header.len() + payload.len()) as int)),
            Err(e) => Err(e),
        }),
        !is_final ==> next_message(kept, header + (payload + rest)).1 is Err,
{
    let data = header + (payload + rest);
    assert(data.subrange(header.len() as int, (header.len() + payload.len()) as int) =~= payload);
}

/// The last fragment of a message goes behind those that were kept, and is then no longer kept; the message has the opcode
/// of the first. One that is not the last is kept behind them, and the message is looked for behind it.
pub proof fn fragment_goes_behind_kept_ones(
    kept: Option<(Data, Seq<u8>)>,
    opcode: Data,
    is_final: bool,
    header: Seq<u8>,
    payload: Seq<u8>,
    rest: Seq<u8>,
)
    requires
        OpCode::Data(opcode).is_defined(),
        header.len() > 0,
        payload.len() <= u64::MAX,
        crate::websocket::coding::tungstenite_header(header + (payload + rest)) == Ok::<_, Seq<char>>(
            Some(
                (
                    FrameHeader {
                        is_final,
                        ..crate::websocket::coding::plain_header(OpCode::Data(opcode))
                    }.coded(),
                    header.len(),
                    payload.len() as u64,
                ),
            ),
        ),
    ensures
        ({
            let all = match kept {
                Some((first, before)) => (first, before + payload),
                None => (opcode, payload),
            };
            let end = (header.len() + payload.len()) as int;
            if is_final {
                next_message(kept, header + (payload + rest)) == (
                    None::<(Data, Seq<u8>)>,
                    match crate::websocket::message::message_of(
                        OpCode::Data(all.0),
                        crate::websocket::message::PayloadView::Bytes(all.1),
                    ) {
                        Ok(message) => Ok((message, end)),
                        Err(e) => Err(e),
                    },
                )
            } else {
                next_message(kept, header + (payload + rest)) == (
                    next_message(Some(all), rest).0,
                    match next_message(Some(all), rest).1 {
                        Ok((message, n)) => Ok((message, end + n)),
                        Err(e) => Err(e),
                    },
                )
            }
        }),
{
    let data = header + (payload + rest);
    let end = (header.len() + payload.len()) as int;
    assert(data.subrange(header.len() as int, end) =~= payload);
    assert(data.skip(end) =~= rest);
}

/// A frame is waited for until all its bytes were received. One that is final makes a message; behind one that is not,
/// another is looked for. A header that is not valid is an error.
pub proof fn frame_is_waited_for(data: Seq<u8>)
    ensures
        match crate::websocket::coding::tungstenite_header(data) {
            Err(text) => has_final_frame(data) == Err::<bool, _>(text),
            Ok(None) => has_final_frame(data) == Ok::<bool, Seq<char>>(false),
            Ok(Some((header, size, len))) => {
                &&& size + len > data.len() ==> has_final_frame(data) == Ok::<bool, Seq<char>>(false)
                &&& 0 < size && size + len <= data.len() && header.is_final ==> has_final_frame(data) == Ok::<
                    bool,
                    Seq<char>,
                >(true)
                &&& 0 < size && size + len <= data.len() && !header.is_final ==> has_final_frame(data)
                    == has_final_frame(data.skip(size + len))
            },
        },
{
}

/// What a check finds complete is deserialized to the next message, and checking changes nothing. An error is that of the
/// header.
pub proof fn check_finds_final_frame(
    pre: WebSocketFrameDeserializer,
    data: Seq<u8>,
    eof: bool,
    mid: WebSocketFrameDeserializer,
    c: Result<bool, Error>,
    post: WebSocketFrameDeserializer,
    d: Result<SizedFrame<Message>, Error>,
)
    requires
        pre.checks(data, eof, &mid, c),
        mid.deserializes(data, &post, d),
    ensures
        mid == pre,
        c == Ok::<bool, Error>(true) <==> has_final_frame(data) == Ok::<bool, Seq<char>>(true),
        c is Err <==> has_final_frame(data) is Err,
        post.kept() == next_message(pre.kept(), data).0,
        match next_message(pre.kept(), data).1 {
            Ok((message, size)) => d matches Ok(sized) && sized.frame@ == message && sized.size == size,
            Err((kind, text)) => d matches Err(e) && e.kind == kind && e.message@ == text,
        },
{
}

} // verus!
