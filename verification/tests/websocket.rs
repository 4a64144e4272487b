use std::borrow::Cow;

use nbio::buffer::GrowableCircleBuf;
use nbio::frame::{DeserializeFrame, SerializeFrame};
use nbio::http::{Request, Response, Scheme, Version};
use nbio::websocket::coding::{format_header, parse_header, Control, Data, FrameHeader, OpCode};
use nbio::websocket::frame::{write_frame, FragmentBuffer};
use nbio::websocket::handshake::{
    check_upgrade_request, client_request, connect_scheme, start_handshake, verify_response,
};
use nbio::websocket::message::{apply_mask, parse_close_frame};
use nbio::websocket::{
    connect_step, connect_target, CloseFrame, ConnectStep, Frame, HandshakeStep, Message, Payload, WebSocketFrameDeserializer,
    WebSocketFrameSerializer, WebSocketSession,
};
use nbio::{
    DriveOutcome, Error, ErrorKind, Flush, Publish, PublishOutcome, Receive, ReceiveOutcome, Session, SessionStatus,
};

/// A server in memory that sends back every frame it gets, without the mask.
struct Echo {
    status: SessionStatus,
    incoming: Vec<u8>,
    outgoing: Vec<u8>,
    read_buffer: Vec<u8>,
}

impl Echo {
    fn new() -> Self {
        Self {
            status: SessionStatus::Established,
            incoming: Vec::new(),
            outgoing: Vec::new(),
            read_buffer: Vec::new(),
        }
    }

    fn echo(&mut self) {
        while let Some(parsed) = parse_header(&self.incoming).unwrap() {
            let end = parsed.size + parsed.len as usize;
            if self.incoming.len() < end {
                return;
            }
            let mut payload = self.incoming[parsed.size..end].to_vec();
            apply_mask(&mut payload, &parsed.header.mask.unwrap());
            self.incoming.drain(..end);
            let header = FrameHeader::new(parsed.header.opcode);
            self.outgoing.extend_from_slice(&format_header(&header, payload.len() as u64));
            self.outgoing.extend_from_slice(&payload);
        }
    }
}

impl Session for Echo {
    fn status(&self) -> SessionStatus {
        self.status
    }

    fn close(&mut self) {
        self.status = SessionStatus::Terminated;
    }

    fn drive(&mut self) -> Result<DriveOutcome, Error> {
        Ok(DriveOutcome::Idle)
    }
}

impl Publish for Echo {
    type PublishPayload<'a> = &'a [u8];

    fn publish<'a>(
        &mut self,
        payload: Self::PublishPayload<'a>,
    ) -> Result<PublishOutcome<Self::PublishPayload<'a>>, Error> {
        let count = payload.len().min(7);
        self.incoming.extend_from_slice(&payload[..count]);
        self.echo();
        if count == payload.len() {
            Ok(PublishOutcome::Published)
        } else {
            Ok(PublishOutcome::Incomplete(&payload[count..]))
        }
    }
}

impl Receive for Echo {
    type ReceivePayload<'a> = &'a [u8];

    fn receive<'a>(&'a mut self) -> Result<ReceiveOutcome<Self::ReceivePayload<'a>>, Error> {
        if self.outgoing.is_empty() {
            return Ok(ReceiveOutcome::Idle);
        }
        let count = self.outgoing.len().min(5);
        self.read_buffer = self.outgoing.drain(..count).collect();
        Ok(ReceiveOutcome::Payload(&self.read_buffer))
    }
}

impl Flush for Echo {
    fn flush(&mut self) -> Result<(), Error> {
        Ok(())
    }
}

/// The request that was written to a stream, and the stream.
struct Machine {
    stream: Echo,
    request: Vec<u8>,
}

type Client = WebSocketSession<Echo, Machine, Echo>;

/// The response of a server to an upgrade request.
fn upgrade(request: &[u8]) -> Response {
    let request = String::from_utf8(request.to_vec()).unwrap();
    let key = request
        .lines()
        .find_map(|x| x.strip_prefix("Sec-WebSocket-Key: "))
        .unwrap();
    let mut response = Response::new(Vec::new());
    response.status = 101;
    response.headers.insert("upgrade", "WebSocket".parse().unwrap());
    response.headers.insert("connection", "Upgrade".parse().unwrap());
    let answer = tungstenite::handshake::derive_accept_key(key.as_bytes());
    response.headers.insert("sec-websocket-accept", answer.parse().unwrap());
    response
}

/// Make the handshake, of which `tail` was read with the response.
fn handshake(session: &mut Client, tail: &[u8]) {
    while session.is_handshaking() {
        match session.begin_handshake_step().unwrap() {
            HandshakeStep::Write { stream, request, accept_key } => {
                let outcome = session.handshake_started(accept_key, Machine { stream, request });
                assert_eq!(outcome, DriveOutcome::Active);
            }
            HandshakeStep::Round { machine, accept_key } => {
                session.handshake_finished(&accept_key, upgrade(&machine.request)).unwrap();
                assert_eq!(session.establish(machine.stream, tail), DriveOutcome::Active);
            }
        }
    }
}

fn connect(uri: &str) -> Client {
    WebSocketSession::connect(Echo::new(), client_request(uri).unwrap())
}

fn text_frame(text: &str) -> Vec<u8> {
    let mut frame = format_header(&FrameHeader::new(OpCode::Data(Data::Text)), text.len() as u64);
    frame.extend_from_slice(text.as_bytes());
    frame
}

fn unwrap_text<'a>(message: Option<&'a Message<'a>>) -> &'a str {
    match message.unwrap() {
        Message::Text(text) => text.as_ref(),
        _ => panic!("not Text"),
    }
}

fn unwrap_binary<'a>(message: Option<&'a Message<'a>>) -> &'a [u8] {
    match message.unwrap() {
        Message::Binary(bin) => bin.as_ref(),
        _ => panic!("not Binary"),
    }
}

#[test]
fn websocket_echo() {
    // connect
    let request = client_request("wss://echo.websocket.org/").unwrap();
    let target = connect_target(&request).unwrap();
    assert_eq!(target.addr, "echo.websocket.org:443");
    assert_eq!(target.domain, Some("echo.websocket.org".to_owned()));
    let mut session: Client = WebSocketSession::connect(Echo::new(), request);
    assert_eq!(session.status(), SessionStatus::Establishing);
    handshake(&mut session, &text_frame("Request served by memory"));
    assert_eq!(session.status(), SessionStatus::Established);

    // send messages
    session.publish(Message::Text("hello, world!".into())).unwrap();
    session.publish(Message::Text("hello again, world!".into())).unwrap();
    session.publish(Message::Text("it's peanut butter jelly time!".into())).unwrap();
    session.publish(Message::Text("peanut butter jelly!".into())).unwrap();
    session.publish(Message::Binary(vec![0, 1, 2, 3].into())).unwrap();

    // wait until received all messages
    let mut received = Vec::new();
    for _ in 0..1000 {
        session.drive().unwrap();
        if let ReceiveOutcome::Payload(m) = session.receive().unwrap() {
            println!("RECEIVED: {m:?}");
            if let Message::Text(x) = &m {
                if x.starts_with("Request served by ") {
                    // skip greeting message
                    continue;
                }
            }
            received.push(m.into_owned());
        }
    }

    // validate messages
    assert_eq!(unwrap_text(received.get(0)), "hello, world!");
    assert_eq!(unwrap_text(received.get(1)), "hello again, world!");
    assert_eq!(unwrap_text(received.get(2)), "it's peanut butter jelly time!");
    assert_eq!(unwrap_text(received.get(3)), "peanut butter jelly!");
    assert_eq!(unwrap_binary(received.get(4)), &vec![0, 1, 2, 3]);
}

#[test]
fn nothing_is_sent_before_the_handshake() {
    let mut session = connect("ws://example.com/");
    assert_eq!(session.receive().unwrap_err().kind(), ErrorKind::NotConnected);
    assert_eq!(session.publish(Message::Text("x".into())).unwrap_err().message, "not connected");
    assert_eq!(session.flush().unwrap_err().message, "not connected");
    assert!(session.upgrade_response().is_none());
    session.close();
    assert_eq!(session.status(), SessionStatus::Terminated);
    assert_eq!(session.begin_handshake_step().err().unwrap().kind(), ErrorKind::NotConnected);
}

#[test]
fn handshake_waits_for_the_response() {
    let mut session = connect("ws://example.com/");
    match session.begin_handshake_step().unwrap() {
        HandshakeStep::Write { stream, request, accept_key } => {
            session.handshake_started(accept_key, Machine { stream, request });
        }
        HandshakeStep::Round { .. } => panic!("nothing was written"),
    }
    match session.begin_handshake_step().unwrap() {
        HandshakeStep::Round { machine, accept_key } => {
            assert_eq!(session.handshake_waiting(accept_key, machine), DriveOutcome::Idle);
        }
        HandshakeStep::Write { .. } => panic!("request was written"),
    }
    assert_eq!(session.status(), SessionStatus::Establishing);
    handshake(&mut session, &[]);
    assert_eq!(session.upgrade_response().unwrap().status(), 101);
    session.close();
    assert_eq!(session.status(), SessionStatus::Terminated);
}

#[test]
fn capacity_is_set_before_the_handshake() {
    let mut session = connect("ws://example.com/").with_write_buffer_capacity(64).unwrap();
    handshake(&mut session, &[]);
    // the first message fills the buffer, and the second has to wait
    assert!(session.publish(Message::Binary(vec![1; 50].into())).unwrap().is_published());
    assert!(matches!(session.publish(Message::Binary(vec![2; 50].into())), Ok(PublishOutcome::Incomplete(_))));
    let err = session.with_write_buffer_capacity(128).err().unwrap();
    assert_eq!(err.message, "write_buffer_capacity must be set before connection is established");
}

#[test]
fn pings_are_answered_in_order() {
    let mut session = connect("ws://example.com/").with_automatic_pongs();
    let mut pings = Vec::new();
    for payload in [b"first", b"other"] {
        pings.extend_from_slice(&format_header(&FrameHeader::new(OpCode::Control(Control::Ping)), 5));
        pings.extend_from_slice(payload);
    }
    handshake(&mut session, &pings);
    assert_eq!(session.receive().unwrap_payload(), Message::Ping(b"first"[..].into()));
    assert_eq!(session.receive().unwrap_payload(), Message::Ping(b"other"[..].into()));
    let mut answers = Vec::new();
    for _ in 0..100 {
        session.drive().unwrap();
        if let ReceiveOutcome::Payload(m) = session.receive().unwrap() {
            answers.push(m.into_owned());
        }
    }
    assert_eq!(answers, vec![Message::Pong(b"first"[..].into()), Message::Pong(b"other"[..].into())]);
}

#[test]
fn pings_are_not_answered_by_default() {
    let mut session = connect("ws://example.com/");
    let ping = format_header(&FrameHeader::new(OpCode::Control(Control::Ping)), 0);
    handshake(&mut session, &ping);
    assert_eq!(session.receive().unwrap_payload(), Message::Ping(b""[..].into()));
    assert_eq!(session.drive().unwrap(), DriveOutcome::Idle);
    session.flush().unwrap();
    assert!(matches!(session.receive(), Ok(ReceiveOutcome::Idle)));
}

/// Take the payload of an outcome.
trait UnwrapPayload<T> {
    fn unwrap_payload(self) -> T;
}

impl<'a> UnwrapPayload<Message<'static>> for Result<ReceiveOutcome<Message<'a>>, Error> {
    fn unwrap_payload(self) -> Message<'static> {
        match self {
            Ok(ReceiveOutcome::Payload(x)) => x.into_owned(),
            _ => panic!("no payload"),
        }
    }
}

#[test]
fn upgrade_request_is_written() {
    let request = client_request("ws://example.com:8080/chat?room=1").unwrap();
    assert_eq!(request.headers.get("host").unwrap().as_bytes(), b"example.com:8080");
    assert_eq!(request.headers.get("sec-websocket-key").unwrap().len(), 24);
    let key = request.headers.get("sec-websocket-key").unwrap().to_str().unwrap().to_owned();
    let start = start_handshake(&request).unwrap();
    assert_eq!(
        String::from_utf8(start.request).unwrap(),
        format!(
            "GET /chat?room=1 HTTP/1.1\r\nHost: example.com:8080\r\nConnection: Upgrade\r\nUpgrade: websocket\r\n\
             Sec-WebSocket-Version: 13\r\nSec-WebSocket-Key: {key}\r\n\r\n"
        )
    );
    assert_eq!(start.accept_key.len(), 28);
    let err = client_request("no host").err().unwrap();
    assert_eq!(err.kind(), ErrorKind::InvalidData);
    assert!(client_request("/path").is_err());
}

#[test]
fn request_target_is_written_as_it_stands() {
    for (uri, target) in [
        ("ws://example.com?x=1", "?x=1"),
        ("ws://example.com", "/"),
        ("ws://example.com/a", "/a"),
        ("ws://example.com/?", "/?"),
    ] {
        let start = start_handshake(&client_request(uri).unwrap()).unwrap();
        let text = String::from_utf8(start.request).unwrap();
        assert!(text.starts_with(&format!("GET {target} HTTP/1.1\r\n")));
    }
    let mut request = client_request("ws://example.com/").unwrap();
    request.uri.path_and_query = None;
    let err = start_handshake(&request).err().unwrap();
    assert_eq!((err.kind(), err.message.as_str()), (ErrorKind::Other, "URL error: No path/query in URL"));
}

#[test]
fn answer_to_a_key_is_derived() {
    let mut request = client_request("ws://example.com/").unwrap();
    request.headers.insert("sec-websocket-key", "dGhlIHNhbXBsZSBub25jZQ==".parse().unwrap());
    assert_eq!(start_handshake(&request).unwrap().accept_key, "s3pPLMBiTxaQ9kYGzzhZRbK+xOo=");
    request.headers.remove("sec-websocket-key");
    assert_eq!(start_handshake(&request).err().unwrap().kind(), ErrorKind::Other);
}

#[test]
fn requests_that_cannot_upgrade_are_refused() {
    let mut request = client_request("ws://example.com/").unwrap();
    assert!(check_upgrade_request(&request).is_ok());
    request.method = "POST".to_owned();
    assert_eq!(
        check_upgrade_request(&request).unwrap_err().message,
        "WebSocket protocol error: Unsupported HTTP method used - only GET is allowed"
    );
    let mut request = client_request("ws://example.com/").unwrap();
    request.version = Version::Http10;
    assert_eq!(
        check_upgrade_request(&request).unwrap_err().message,
        "WebSocket protocol error: HTTP version must be 1.1 or higher"
    );
    let request = Request::get("http://example.com/", ()).unwrap();
    assert_eq!(check_upgrade_request(&request).unwrap_err().message, "URL error: URL scheme not supported");
    assert_eq!(connect_target(&request).err().unwrap().message, "invalid scheme Some(\"http\")");
    assert_eq!(connect_scheme(&None).unwrap(), Scheme::Http);
    assert_eq!(connect_scheme(&Some("wss".to_owned())).unwrap(), Scheme::Https);
    assert_eq!(connect_target(&Request::get("/", ()).unwrap()).err().unwrap().message, "missing host");
}

#[test]
fn only_the_right_response_completes_the_handshake() {
    let start = start_handshake(&client_request("ws://example.com/").unwrap()).unwrap();
    assert!(verify_response(&start.accept_key, upgrade(&start.request)).is_ok());

    let mut response = upgrade(&start.request);
    response.status = 404;
    assert_eq!(verify_response(&start.accept_key, response).err().unwrap().message, "HTTP error: 404 Not Found");
    for (status, text) in [(999, "999 <unknown status code>"), (99, "99"), (1000, "1000")] {
        let mut response = upgrade(&start.request);
        response.status = status;
        let err = verify_response(&start.accept_key, response).err().unwrap();
        assert_eq!(err.message, format!("HTTP error: {text}"));
    }
    let mut response = upgrade(&start.request);
    response.headers.remove("upgrade");
    assert_eq!(
        verify_response(&start.accept_key, response).err().unwrap().message,
        "WebSocket protocol error: No \"Upgrade: websocket\" header"
    );
    let mut response = upgrade(&start.request);
    response.headers.insert("connection", "close".parse().unwrap());
    assert_eq!(
        verify_response(&start.accept_key, response).err().unwrap().message,
        "WebSocket protocol error: No \"Connection: upgrade\" header"
    );
    let response = upgrade(&start.request);
    assert_eq!(
        verify_response("another answer", response).err().unwrap().message,
        "WebSocket protocol error: Key mismatch in \"Sec-WebSocket-Accept\" header"
    );
}

#[test]
fn mask_is_applied_by_turns() {
    let mut bytes = vec![0, 1, 2, 3, 4, 5];
    apply_mask(&mut bytes, &[1, 2, 4, 8]);
    assert_eq!(bytes, vec![1, 3, 6, 11, 5, 7]);
    apply_mask(&mut bytes, &[1, 2, 4, 8]);
    assert_eq!(bytes, vec![0, 1, 2, 3, 4, 5]);
}

#[test]
fn headers_are_formatted_and_parsed() {
    let header = FrameHeader::new(OpCode::Data(Data::Binary));
    assert_eq!(format_header(&header, 5), vec![0x82, 5]);
    assert_eq!(format_header(&header, 126), vec![0x82, 126, 0, 126]);
    assert_eq!(format_header(&header, 65536), vec![0x82, 127, 0, 0, 0, 0, 0, 1, 0, 0]);
    let mut masked = FrameHeader::new(OpCode::Control(Control::Close));
    masked.mask = Some([1, 2, 3, 4]);
    masked.is_final = false;
    let bytes = format_header(&masked, 3);
    assert_eq!(bytes, vec![0x08, 0x83, 1, 2, 3, 4]);
    let parsed = parse_header(&bytes).unwrap().unwrap();
    assert_eq!((parsed.header, parsed.size, parsed.len), (masked, 6, 3));
    assert!(parse_header(&bytes[..5]).unwrap().is_none());
    assert_eq!(parse_header(&[0x83, 0]).err().unwrap().kind(), ErrorKind::InvalidData);
    for code in 0..16 {
        match OpCode::from_code(code) {
            Some(opcode) => assert_eq!(opcode.code(), code),
            None => panic!("{code} is an opcode"),
        }
    }
    assert_eq!(OpCode::from_code(5), Some(OpCode::Data(Data::Reserved(5))));
    assert_eq!(OpCode::from_code(16), None);
    for (opcode, text) in [
        (OpCode::Data(Data::Continue), "Data(Continue)"),
        (OpCode::Data(Data::Reserved(3)), "Data(Reserved(3))"),
        (OpCode::Control(Control::Reserved(11)), "Control(Reserved(11))"),
    ] {
        let payload = Payload::Bytes(vec![1].into());
        let err = Message::try_from(Frame { header: FrameHeader::new(opcode), payload, serialized_header: None });
        assert_eq!(err.unwrap_err().message, format!("unrecognized opcode {text}"));
    }
}

#[test]
fn messages_are_put_in_masked_frames() {
    let mask = [9, 8, 7, 6];
    for (message, opcode, payload) in [
        (Message::Text("hi".into()), OpCode::Data(Data::Text), b"hi".to_vec()),
        (Message::Binary(vec![1, 2].into()), OpCode::Data(Data::Binary), vec![1, 2]),
        (Message::Ping(vec![3].into()), OpCode::Control(Control::Ping), vec![3]),
        (Message::Pong(vec![4].into()), OpCode::Control(Control::Pong), vec![4]),
        (Message::Close(None), OpCode::Control(Control::Close), vec![]),
        (
            Message::Close(Some(CloseFrame { code: 1000, reason: "bye".into() })),
            OpCode::Control(Control::Close),
            b"\x03\xe8bye".to_vec(),
        ),
    ] {
        let frame = Frame::with_mask(message.clone(), mask);
        assert_eq!(frame.header.opcode, opcode);
        assert_eq!(frame.header.mask, Some(mask));
        assert_eq!(frame.serialized_header, Some(format_header(&frame.header, payload.len() as u64)));
        let mut bytes = frame.payload.as_bytes().to_vec();
        apply_mask(&mut bytes, &mask);
        assert_eq!(bytes, payload);
        // what was put in a frame is taken out of it
        let plain = Frame { header: FrameHeader::new(opcode), payload: Payload::Bytes(bytes.into()), serialized_header: None };
        assert_eq!(Message::try_from(plain.clone()).unwrap(), message);
        assert_eq!(Frame::with_mask(Message::Frame(plain.clone()), mask), plain);
    }
}

#[test]
fn masks_are_random() {
    let masks: Vec<_> = (0..8)
        .map(|_| Frame::try_from(Message::Text("x".into())).unwrap().header.mask.unwrap())
        .collect();
    assert!(masks.iter().any(|x| *x != masks[0]));
}

#[test]
fn close_frames_are_parsed() {
    assert!(parse_close_frame(&[]).unwrap().is_none());
    let close = parse_close_frame(b"\x03\xe9gone").unwrap().unwrap();
    assert_eq!((close.code, close.reason.as_ref()), (1001, "gone"));
    assert_eq!(close.clone().into_owned(), close);
    let err = parse_close_frame(&[3]).unwrap_err();
    assert_eq!(err.kind(), ErrorKind::InvalidData);
    assert_eq!(err.message, "Invalid close sequence");
}

#[test]
fn text_that_is_not_valid_is_replaced() {
    let payload = Payload::Bytes(Cow::Borrowed(b"a\xffb"));
    assert_eq!(payload.clone().into_text(), "a\u{fffd}b");
    assert_eq!(payload.clone().into_owned().into_bytes().as_ref(), b"a\xffb");
    let payload = Payload::Str(Cow::Borrowed("h\u{e9}"));
    assert_eq!(payload.clone().into_bytes().as_ref(), b"h\xc3\xa9");
    assert_eq!(payload.into_text(), "h\u{e9}");
}

#[test]
fn continuation_alone_is_no_message() {
    let frame = Frame {
        header: FrameHeader::new(OpCode::Data(Data::Continue)),
        payload: Payload::Bytes(Cow::Borrowed(b"")),
        serialized_header: None,
    };
    let err = Message::try_from(frame).unwrap_err();
    assert_eq!(err.kind(), ErrorKind::Other);
    assert_eq!(err.message, "unrecognized opcode Data(Continue)");
}

fn fragment(opcode: OpCode, is_final: bool, payload: &[u8]) -> Vec<u8> {
    let mut header = FrameHeader::new(opcode);
    header.is_final = is_final;
    let mut frame = format_header(&header, payload.len() as u64);
    frame.extend_from_slice(payload);
    frame
}

#[test]
fn fragments_are_joined_to_one_message() {
    let mut data = fragment(OpCode::Data(Data::Text), false, b"one ");
    data.extend_from_slice(&fragment(OpCode::Data(Data::Continue), false, b"two "));
    assert!(!WebSocketFrameDeserializer::new().check_deserialize_frame(&data, false).unwrap());
    data.extend_from_slice(&fragment(OpCode::Data(Data::Continue), true, b"three"));
    let size = data.len();
    data.extend_from_slice(b"\x81\x05next");
    let mut deserializer = WebSocketFrameDeserializer::new();
    assert!(deserializer.check_deserialize_frame(&data, false).unwrap());
    let sized = deserializer.deserialize_frame(&data).unwrap();
    assert_eq!(sized.frame, Message::Text("one two three".into()));
    assert_eq!(sized.size, size);
}

#[test]
fn control_frame_between_fragments_is_a_message() {
    let mut data = fragment(OpCode::Data(Data::Binary), false, &[1]);
    data.extend_from_slice(&fragment(OpCode::Control(Control::Ping), true, &[9]));
    let size = data.len();
    data.extend_from_slice(&fragment(OpCode::Data(Data::Continue), true, &[2]));
    let mut deserializer = WebSocketFrameDeserializer::default();
    assert!(deserializer.check_deserialize_frame(&data, false).unwrap());
    let sized = deserializer.deserialize_frame(&data).unwrap();
    assert_eq!(sized.frame, Message::Ping(vec![9].into()));
    assert_eq!(sized.size, size);
    drop(sized);
    let sized = deserializer.deserialize_frame(&data[size..]).unwrap();
    assert_eq!(sized.frame, Message::Binary(vec![1, 2].into()));
}

#[test]
fn fragmented_control_frame_is_an_error() {
    let mut data = fragment(OpCode::Control(Control::Ping), false, &[1]);
    data.extend_from_slice(&fragment(OpCode::Control(Control::Ping), true, &[2]));
    let mut deserializer = WebSocketFrameDeserializer::new();
    assert!(deserializer.check_deserialize_frame(&data, false).unwrap());
    let err = deserializer.deserialize_frame(&data).err().unwrap();
    assert_eq!(err.message, "WebSocket encounted fragmented control frame");
    assert_eq!(
        deserializer.check_deserialize_frame(&[0x83, 0x00], false).unwrap_err().kind(),
        ErrorKind::InvalidData
    );
}

#[test]
fn refused_message_is_given_back_as_a_frame() {
    let mut buf = GrowableCircleBuf::new(16).unwrap();
    let mut serializer = WebSocketFrameSerializer::new();
    assert!(serializer.serialize_frame(Message::Binary(vec![1; 8].into()), &mut buf).unwrap().is_published());
    let refused = match serializer.serialize_frame(Message::Binary(vec![2; 8].into()), &mut buf).unwrap() {
        PublishOutcome::Incomplete(Message::Frame(frame)) => frame,
        _ => panic!("buffer is full"),
    };
    assert!(matches!(write_frame(refused.clone(), &mut buf), Ok(PublishOutcome::Incomplete(_))));
    let len = buf.peek_read().len();
    buf.advance_read(len).unwrap();
    while !buf.is_empty() {
        let len = buf.peek_read().len();
        buf.advance_read(len).unwrap();
    }
    // the same bytes are written as at the first attempt
    assert!(write_frame(refused.clone(), &mut buf).unwrap().is_published());
    let mut expected = refused.serialized_header.clone().unwrap();
    expected.extend_from_slice(refused.payload.as_bytes());
    let mut written = Vec::new();
    while !buf.is_empty() {
        let run = buf.peek_read().to_vec();
        buf.advance_read(run.len()).unwrap();
        written.extend_from_slice(&run);
    }
    assert_eq!(written, expected);
}

#[test]
fn frame_without_header_is_refused() {
    let mut buf = GrowableCircleBuf::new(16).unwrap();
    let frame = Frame {
        header: FrameHeader::new(OpCode::Data(Data::Text)),
        payload: Payload::Bytes(Cow::Borrowed(b"x")),
        serialized_header: None,
    };
    let err = write_frame(frame, &mut buf).unwrap_err();
    assert_eq!(err.kind(), ErrorKind::InvalidData);
    assert_eq!(err.message, "frame is missing serialized header");
    assert!(buf.is_empty());
}

#[test]
fn fragments_are_kept_in_order() {
    let mut fragments = FragmentBuffer::new(Data::Text);
    fragments.append(b"ab");
    fragments.append(b"c");
    assert_eq!(fragments.opcode, Data::Text);
    assert_eq!(fragments.payload, b"abc");
}

#[test]
fn owned_values_borrow_nothing() {
    let bytes = vec![1, 2];
    let text = "hi".to_owned();
    for payload in [Payload::Bytes(Cow::Borrowed(&bytes)), Payload::Str(Cow::Borrowed(&text)), Payload::Bytes(vec![1].into())] {
        let owned = payload.clone().into_owned();
        assert_eq!(owned, payload);
        assert_eq!(owned.as_bytes(), payload.as_bytes());
        assert!(matches!(owned, Payload::Bytes(Cow::Owned(_)) | Payload::Str(Cow::Owned(_))));
        assert_eq!(owned.clone().into_owned(), owned);
    }
    assert!(matches!(Message::Text(Cow::Borrowed(&text)).into_owned(), Message::Text(Cow::Owned(_))));
    let close = CloseFrame { code: 1000, reason: Cow::Borrowed("bye") };
    assert!(matches!(close.into_owned().reason, Cow::Owned(_)));
}

#[test]
fn handshake_starts_on_an_established_stream() {
    assert_eq!(connect_step(SessionStatus::Established), ConnectStep::StartHandshake);
    assert_eq!(connect_step(SessionStatus::Establishing), ConnectStep::DriveStream);
    assert_eq!(connect_step(SessionStatus::Terminated), ConnectStep::DriveStream);
}
