//! WebSocket opcodes and frame headers
use std::io::Cursor;

use vstd::prelude::*;

use crate::error::{Error, ErrorKind};

verus! {

/// Opcodes of data frames
#[derive(Debug, Clone, Copy, PartialEq, Eq, Structural)]
pub enum Data {
    Continue,
    Text,
    Binary,
    /// 3 to 7 are reserved for further data frames
    Reserved(u8),
}

/// Opcodes of control frames
#[derive(Debug, Clone, Copy, PartialEq, Eq, Structural)]
pub enum Control {
    Close,
    Ping,
    Pong,
    /// 11 to 15 are reserved for further control frames
    Reserved(u8),
}

/// WebSocket message opcode
#[derive(Debug, Clone, Copy, PartialEq, Eq, Structural)]
pub enum OpCode {
    Data(Data),
    Control(Control),
}

/// Whether a number is that of an opcode that is not reserved.
pub open spec fn is_defined_code(code: u8) -> bool {
    opcode_of(code) matches Some(opcode) && opcode.is_defined()
}

/// The opcode that a number is.
pub open spec fn opcode_of(code: u8) -> Option<OpCode> {
    if code == 0 {
        Some(OpCode::Data(Data::Continue))
    } else if code == 1 {
        Some(OpCode::Data(Data::Text))
    } else if code == 2 {
        Some(OpCode::Data(Data::Binary))
    } else if code <= 7 {
        Some(OpCode::Data(Data::Reserved(code)))
    } else if code == 8 {
        Some(OpCode::Control(Control::Close))
    } else if code == 9 {
        Some(OpCode::Control(Control::Ping))
    } else if code == 10 {
        Some(OpCode::Control(Control::Pong))
    } else if code <= 15 {
        Some(OpCode::Control(Control::Reserved(code)))
    } else {
        None
    }
}

impl OpCode {
    /// Whether the opcode is not one that is reserved.
    pub open spec fn is_defined(self) -> bool {
        !(self matches OpCode::Data(Data::Reserved(_))) && !(self matches OpCode::Control(
            Control::Reserved(_),
        ))
    }

    /// The number of the opcode.
    pub open spec fn number(self) -> u8 {
        match self {
            OpCode::Data(Data::Continue) => 0,
            OpCode::Data(Data::Text) => 1,
            OpCode::Data(Data::Binary) => 2,
            OpCode::Data(Data::Reserved(code)) => code,
            OpCode::Control(Control::Close) => 8,
            OpCode::Control(Control::Ping) => 9,
            OpCode::Control(Control::Pong) => 10,
            OpCode::Control(Control::Reserved(code)) => code,
        }
    }

    /// The number of the opcode.
    pub fn code(self) -> (r: u8)
        ensures
            r == self.number(),
            self.is_defined() ==> opcode_of(r) == Some(self),
    {
        match self {
            OpCode::Data(Data::Continue) => 0,
            OpCode::Data(Data::Text) => 1,
            OpCode::Data(Data::Binary) => 2,
            OpCode::Data(Data::Reserved(code)) => code,
            OpCode::Control(Control::Close) => 8,
            OpCode::Control(Control::Ping) => 9,
            OpCode::Control(Control::Pong) => 10,
            OpCode::Control(Control::Reserved(code)) => code,
        }
    }

    /// The opcode that a number is, if it is one.
    pub fn from_code(code: u8) -> (r: Option<Self>)
        ensures
            r == opcode_of(code),
    {
        match code {
            0 => Some(OpCode::Data(Data::Continue)),
            1 => Some(OpCode::Data(Data::Text)),
            2 => Some(OpCode::Data(Data::Binary)),
            3 | 4 | 5 | 6 | 7 => Some(OpCode::Data(Data::Reserved(code))),
            8 => Some(OpCode::Control(Control::Close)),
            9 => Some(OpCode::Control(Control::Ping)),
            10 => Some(OpCode::Control(Control::Pong)),
            11 | 12 | 13 | 14 | 15 => Some(OpCode::Control(Control::Reserved(code))),
            _ => None,
        }
    }
}

/// The header of a WebSocket frame.
#[derive(Debug, Clone, Copy, PartialEq, Eq)]
pub struct FrameHeader {
    pub is_final: bool,
    pub rsv1: bool,
    pub rsv2: bool,
    pub rsv3: bool,
    pub opcode: OpCode,
    pub mask: Option<[u8; 4]>,
}

/// The header of a frame that is not a fragment, without a mask.
pub open spec fn plain_header(opcode: OpCode) -> FrameHeader {
    FrameHeader { is_final: true, rsv1: false, rsv2: false, rsv3: false, opcode, mask: None }
}

impl FrameHeader {
    /// Create the header of a frame that is not a fragment, without a mask.
    pub fn new(opcode: OpCode) -> (r: Self)
        ensures
            r == plain_header(opcode),
    {
        Self { is_final: true, rsv1: false, rsv2: false, rsv3: false, opcode, mask: None }
    }

    /// The header with the opcode as a number.
    pub open spec fn coded(self) -> CodedHeader {
        CodedHeader {
            is_final: self.is_final,
            rsv1: self.rsv1,
            rsv2: self.rsv2,
            rsv3: self.rsv3,
            code: self.opcode.number(),
            mask: self.mask,
        }
    }
}

/// The header of a WebSocket frame with the opcode as a number.
#[derive(Clone, Copy)]
pub struct CodedHeader {
    pub is_final: bool,
    pub rsv1: bool,
    pub rsv2: bool,
    pub rsv3: bool,
    pub code: u8,
    pub mask: Option<[u8; 4]>,
}

/// What the `tungstenite` crate makes of data that starts with a frame: the header, its size, and the length of the
/// payload; nothing yet when the data ends before the header does; or an error text.
pub uninterp spec fn tungstenite_header(data: Seq<u8>) -> Result<
    Option<(CodedHeader, nat, u64)>,
    Seq<char>,
>;

/// A number in that many bytes, the highest first.
pub open spec fn network_bytes(n: nat, count: nat) -> Seq<u8>
    decreases count,
{
    if count == 0 {
        Seq::empty()
    } else {
        network_bytes(n / 256, (count - 1) as nat).push((n % 256) as u8)
    }
}

/// The value of a flag in a byte.
pub open spec fn flag(set: bool, value: int) -> int {
    if set {
        value
    } else {
        0
    }
}

/// The bytes of a header for a payload of that length: the flags and the opcode, the length in one, three or nine bytes,
/// and the mask.
pub open spec fn header_bytes(header: CodedHeader, len: u64) -> Seq<u8> {
    let first = flag(header.is_final, 128) + flag(header.rsv1, 64) + flag(header.rsv2, 32) + flag(
        header.rsv3,
        16,
    ) + header.code;
    let masked = flag(header.mask is Some, 128);
    let coded_len = if len < 126 {
        seq![(masked + len) as u8]
    } else if len < 65536 {
        seq![(masked + 126) as u8] + network_bytes(len as nat, 2)
    } else {
        seq![(masked + 127) as u8] + network_bytes(len as nat, 8)
    };
    let mask = match header.mask {
        Some(mask) => mask@,
        None => Seq::empty(),
    };
    seq![first as u8] + coded_len + mask
}

/// [`tungstenite::protocol::frame::FrameHeader::parse`] parses a header, whose bytes are among those of the data and are
/// two at least. Opcodes that are reserved are errors.
#[verifier::external_body]
fn parse_coded_header(data: &[u8]) -> (r: Result<Option<(CodedHeader, usize, u64)>, String>)
    ensures
        match r {
            Ok(Some(x)) => tungstenite_header(data@) == Ok::<_, Seq<char>>(
                Some((x.0, x.1 as nat, x.2)),
            ) && 2 <= x.1 <= data@.len() && is_defined_code(x.0.code),
            Ok(None) => tungstenite_header(data@) == Ok::<
                Option<(CodedHeader, nat, u64)>,
                Seq<char>,
            >(None),
            Err(text) => tungstenite_header(data@) == Err::<Option<(CodedHeader, nat, u64)>, _>(text@),
        },
{
    let mut cursor = Cursor::new(data);
    match tungstenite::protocol::frame::FrameHeader::parse(&mut cursor) {
        Ok(Some((h, len))) => {
            let code = u8::from(h.opcode);
            let (is_final, rsv1, rsv2, rsv3, mask) = (h.is_final, h.rsv1, h.rsv2, h.rsv3, h.mask);
            let header = CodedHeader { is_final, rsv1, rsv2, rsv3, code, mask };
            Ok(Some((header, cursor.position() as usize, len)))
        }
        Ok(None) => Ok(None),
        Err(err) => Err(err.to_string()),
    }
}

/// [`tungstenite::protocol::frame::FrameHeader::format`] writes the bytes of a header: two to fourteen, which are parsed
/// back to the header and the length whatever follows them.
#[verifier::external_body]
fn format_coded_header(header: &CodedHeader, len: u64) -> (r: Vec<u8>)
    requires
        is_defined_code(header.code),
    ensures
        r@ == header_bytes(*header, len),
        2 <= r@.len() <= 14,
        forall|rest: Seq<u8>| #[trigger]
            tungstenite_header(r@ + rest) == Ok::<_, Seq<char>>(Some((*header, r@.len(), len))),
{
    let (is_final, rsv1, rsv2, rsv3) = (header.is_final, header.rsv1, header.rsv2, header.rsv3);
    let opcode = tungstenite::protocol::frame::coding::OpCode::from(header.code);
    let mask = header.mask;
    let header = tungstenite::protocol::frame::FrameHeader { is_final, rsv1, rsv2, rsv3, opcode, mask };
    let mut bytes = Vec::new();
    header.format(len, &mut bytes).unwrap();
    bytes
}

/// A header that was parsed, its size, and the length of the payload.
#[derive(Clone, Copy)]
pub struct ParsedHeader {
    pub header: FrameHeader,
    pub size: usize,
    pub len: u64,
}

/// Whether `r` is what the header at the start of the data is parsed to.
pub open spec fn is_parsed_header(data: Seq<u8>, r: Result<Option<ParsedHeader>, Error>) -> bool {
    match r {
        Ok(Some(parsed)) => {
            &&& tungstenite_header(data) == Ok::<_, Seq<char>>(
                Some((parsed.header.coded(), parsed.size as nat, parsed.len)),
            )
            &&& 2 <= parsed.size <= data.len()
            &&& parsed.header.opcode.is_defined()
        },
        Ok(None) => tungstenite_header(data) == Ok::<Option<(CodedHeader, nat, u64)>, Seq<char>>(None),
        Err(e) => {
            &&& e.kind == ErrorKind::InvalidData
            &&& tungstenite_header(data) == Err::<Option<(CodedHeader, nat, u64)>, _>(e.message@)
        },
    }
}

/// Parse the header at the start of the data.
pub fn parse_header(data: &[u8]) -> (r: Result<Option<ParsedHeader>, Error>)
    ensures
        is_parsed_header(data@, r),
{
    match parse_coded_header(data) {
        Ok(Some((coded, size, len))) => {
            let opcode = match OpCode::from_code(coded.code) {
                Some(opcode) => opcode,
                None => vstd::pervasive::unreached(),
            };
            let header = FrameHeader {
                is_final: coded.is_final,
                rsv1: coded.rsv1,
                rsv2: coded.rsv2,
                rsv3: coded.rsv3,
                opcode,
                mask: coded.mask,
            };
            Ok(Some(ParsedHeader { header, size, len }))
        },
        Ok(None) => Ok(None),
        Err(text) => Err(Error::new(ErrorKind::InvalidData, text.as_str())),
    }
}

/// Write a header for a payload of that length.
pub fn format_header(header: &FrameHeader, len: u64) -> (r: Vec<u8>)
    requires
        header.opcode.is_defined(),
    ensures
        r@ == header_bytes(header.coded(), len),
        2 <= r@.len() <= 14,
        forall|rest: Seq<u8>| #[trigger]
            tungstenite_header(r@ + rest) == Ok::<_, Seq<char>>(Some((header.coded(), r@.len(), len))),
{
    let coded = CodedHeader {
        is_final: header.is_final,
        rsv1: header.rsv1,
        rsv2: header.rsv2,
        rsv3: header.rsv3,
        code: header.opcode.code(),
        mask: header.mask,
    };
    format_coded_header(&coded, len)
}

/// The numbers of the opcodes are those of the protocol, and each number from 0 to 15 is that of one opcode.
pub proof fn opcodes_have_their_numbers(code: u8)
    ensures
        OpCode::Data(Data::Continue).number() == 0,
        OpCode::Data(Data::Text).number() == 1,
        OpCode::Data(Data::Binary).number() == 2,
        OpCode::Control(Control::Close).number() == 8,
        OpCode::Control(Control::Ping).number() == 9,
        OpCode::Control(Control::Pong).number() == 10,
        opcode_of(code) is Some <==> code <= 15,
        opcode_of(code) matches Some(opcode) ==> opcode.number() == code,
        opcode_of(code) matches Some(OpCode::Data(_)) ==> code < 8,
        opcode_of(code) matches Some(OpCode::Control(_)) ==> code >= 8,
        is_defined_code(code) <==> code <= 2 || 8 <= code <= 10,
{
}

/// The number that bytes are, the highest first.
pub open spec fn network_value(bytes: Seq<u8>) -> nat
    decreases bytes.len(),
{
    if bytes.len() == 0 {
        0
    } else {
        network_value(bytes.drop_last()) * 256 + bytes.last() as nat
    }
}

/// Whether a number fits in that many bytes.
spec fn fits_bytes(n: nat, count: nat) -> bool
    decreases count,
{
    if count == 0 {
        n == 0
    } else {
        fits_bytes(n / 256, (count - 1) as nat)
    }
}

proof fn lemma_network_value(n: nat, count: nat)
    requires
        fits_bytes(n, count),
    ensures
        network_bytes(n, count).len() == count,
        network_value(network_bytes(n, count)) == n,
    decreases count,
{
    if count > 0 {
        lemma_network_value(n / 256, (count - 1) as nat);
        assert(network_bytes(n, count).drop_last() =~= network_bytes(n / 256, (count - 1) as nat));
    }
}

/// A frame as a peer reads it from its bytes.
pub struct PeerFrame {
    pub is_final: bool,
    pub reserved: int,
    pub code: int,
    pub is_masked: bool,
    /// The bytes of the payload without the mask.
    pub payload: Seq<u8>,
    /// How many bytes the frame is.
    pub size: int,
}

/// What a peer reads of bytes that start with a frame: the flags and the opcode are in the first byte. The second says
/// whether there is a mask, and has the length of the payload, or says that it is in the next two or eight bytes. Each byte
/// of the payload is combined with the byte of the mask that is its turn. Nothing is read when bytes are missing.
pub open spec fn peer_frame(bytes: Seq<u8>) -> Option<PeerFrame> {
    let short = bytes[1] as int % 128;
    let wide: int = if short < 126 {
        0
    } else if short == 126 {
        2
    } else {
        8
    };
    let is_masked = bytes[1] >= 128;
    let start = 2 + wide + if is_masked {
        4int
    } else {
        0int
    };
    let len: int = if short < 126 {
        short
    } else {
        network_value(bytes.subrange(2, 2 + wide)) as int
    };
    if bytes.len() < 2 || bytes.len() < start || bytes.len() < start + len {
        None
    } else {
        Some(
            PeerFrame {
                is_final: bytes[0] >= 128,
                reserved: bytes[0] as int / 16 % 8,
                code: bytes[0] as int % 16,
                is_masked,
                payload: Seq::new(
                    len as nat,
                    |i: int|
                        if is_masked {
                            bytes[start + i] ^ bytes[start - 4 + i % 4]
                        } else {
                            bytes[start + i]
                        },
                ),
                size: start + len,
            },
        )
    }
}

/// A peer reads the header and the payload that were written, whatever follows them: the flags, the opcode, and the payload
/// with the mask applied to it.
pub proof fn written_frame_is_read_by_peer(header: CodedHeader, payload: Seq<u8>, rest: Seq<u8>)
    requires
        header.code < 16,
        payload.len() <= u64::MAX,
    ensures
        peer_frame(header_bytes(header, payload.len() as u64) + payload + rest) matches Some(frame) && {
            &&& frame.is_final == header.is_final
            &&& frame.reserved == (if header.rsv1 {
                4int
            } else {
                0int
            }) + (if header.rsv2 {
                2int
            } else {
                0int
            }) + (if header.rsv3 {
                1int
            } else {
                0int
            })
            &&& frame.code == header.code
            &&& frame.is_masked == header.mask is Some
            &&& frame.payload.len() == payload.len()
            &&& forall|i: int|
                0 <= i < payload.len() ==> #[trigger] frame.payload[i] == match header.mask {
                    Some(mask) => payload[i] ^ mask@[i % 4],
                    None => payload[i],
                }
            &&& frame.size == header_bytes(header, payload.len() as u64).len() + payload.len()
        },
{
    let len = payload.len() as u64;
    let head = header_bytes(header, len);
    let bytes = head + payload + rest;
    let first = flag(header.is_final, 128) + flag(header.rsv1, 64) + flag(header.rsv2, 32) + flag(
        header.rsv3,
        16,
    ) + header.code;
    let masked = flag(header.mask is Some, 128);
    let wide: nat = if len < 126 {
        0
    } else if len < 65536 {
        2
    } else {
        8
    };
    assert(fits_bytes(len as nat, 2) || len >= 65536) by {
        reveal_with_fuel(fits_bytes, 3);
    }
    assert(fits_bytes(len as nat, 8)) by {
        reveal_with_fuel(fits_bytes, 9);
    }
    if len >= 126 {
        lemma_network_value(len as nat, wide);
    }
    assert(0 <= first < 256);
    assert(bytes[0] == first as u8);
    let short: int = if len < 126 {
        len as int
    } else if len < 65536 {
        126
    } else {
        127
    };
    assert(bytes[1] == (masked + short) as u8);
    if wide > 0 {
        assert(bytes.subrange(2, 2 + wide as int) =~= network_bytes(len as nat, wide));
    }
    if let Some(mask) = header.mask {
        assert(mask@.len() == 4);
        assert(forall|k: int| 0 <= k < 4 ==> bytes[2 + wide + k] == #[trigger] mask@[k]);
        assert(head.len() == 2 + wide + 4);
    } else {
        assert(head.len() == 2 + wide);
    }
    assert(forall|i: int| 0 <= i < payload.len() ==> bytes[head.len() + i] == #[trigger] payload[i]);
}

/// A header with the opcode as a number has the same flags and the same mask, and the opcode is read back from the number.
/// The header of a frame that is not a fragment is final, and has no other flag and no mask.
pub proof fn coded_header_keeps_all(header: FrameHeader)
    ensures
        header.coded().is_final == header.is_final,
        header.coded().rsv1 == header.rsv1,
        header.coded().rsv2 == header.rsv2,
        header.coded().rsv3 == header.rsv3,
        header.coded().mask == header.mask,
        header.opcode.is_defined() ==> opcode_of(header.coded().code) == Some(header.opcode),
        plain_header(header.opcode).opcode == header.opcode,
        plain_header(header.opcode).is_final,
        !plain_header(header.opcode).rsv1 && !plain_header(header.opcode).rsv2 && !plain_header(header.opcode).rsv3,
        plain_header(header.opcode).mask is None,
{
}

/// What a header is parsed to is what it was written from: the flags, the opcode, the mask, and the length of the payload.
pub proof fn parsed_header_is_as_written(
    header: FrameHeader,
    size: nat,
    len: u64,
    data: Seq<u8>,
    r: Result<Option<ParsedHeader>, Error>,
)
    requires
        header.opcode.is_defined(),
        tungstenite_header(data) == Ok::<_, Seq<char>>(Some((header.coded(), size, len))),
        is_parsed_header(data, r),
    ensures
        r matches Ok(Some(parsed)) && parsed.header == header && parsed.size == size && parsed.len == len,
{
    let parsed = r->Ok_0->0;
    assert(parsed.header.coded() == header.coded());
    coded_header_keeps_all(header);
    coded_header_keeps_all(parsed.header);
}

} // verus!
