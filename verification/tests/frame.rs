use std::cell::RefCell;
use std::collections::VecDeque;
use std::rc::Rc;

use nbio::buffer::GrowableCircleBuf;
use nbio::frame::{
    DeserializeFrame, FrameDuplex, FramePublisher, FrameReceiver, SerializeFrame, SizedFrame, U64FrameDeserializer,
    U64FrameSerializer,
};
use nbio::{
    DriveOutcome, Error, ErrorKind, Flush, Publish, PublishOutcome, Receive, ReceiveOutcome, Session, SessionStatus,
};

/// One end of a pipe in memory. A direction holds at most `capacity` bytes, and a read takes at most `read_size`.
struct Pipe {
    status: SessionStatus,
    incoming: Rc<RefCell<VecDeque<u8>>>,
    outgoing: Rc<RefCell<VecDeque<u8>>>,
    capacity: usize,
    read_buffer: Vec<u8>,
    read_size: usize,
    fails: bool,
}

fn pipe(capacity: usize, read_size: usize) -> (Pipe, Pipe) {
    let there = Rc::new(RefCell::new(VecDeque::new()));
    let back = Rc::new(RefCell::new(VecDeque::new()));
    let end = |incoming: &Rc<RefCell<VecDeque<u8>>>, outgoing: &Rc<RefCell<VecDeque<u8>>>| Pipe {
        status: SessionStatus::Establishing,
        incoming: Rc::clone(incoming),
        outgoing: Rc::clone(outgoing),
        capacity,
        read_buffer: Vec::new(),
        read_size,
        fails: false,
    };
    (end(&back, &there), end(&there, &back))
}

impl Session for Pipe {
    fn status(&self) -> SessionStatus {
        self.status
    }

    fn close(&mut self) {
        self.status = SessionStatus::Terminated;
    }

    fn drive(&mut self) -> Result<DriveOutcome, Error> {
        match self.status {
            SessionStatus::Establishing => {
                self.status = SessionStatus::Established;
                Ok(DriveOutcome::Active)
            }
            SessionStatus::Established => Ok(DriveOutcome::Idle),
            SessionStatus::Terminated => Err(Error::new(ErrorKind::NotConnected, "terminated")),
        }
    }
}

impl Publish for Pipe {
    type PublishPayload<'a> = &'a [u8];

    fn publish<'a>(&mut self, payload: Self::PublishPayload<'a>) -> Result<PublishOutcome<Self::PublishPayload<'a>>, Error> {
        if self.fails {
            return Err(Error::new(ErrorKind::BrokenPipe, "broken"));
        }
        let mut outgoing = self.outgoing.borrow_mut();
        let count = payload.len().min(self.capacity - outgoing.len());
        outgoing.extend(&payload[..count]);
        if count == payload.len() {
            Ok(PublishOutcome::Published)
        } else {
            Ok(PublishOutcome::Incomplete(&payload[count..]))
        }
    }
}

impl Receive for Pipe {
    type ReceivePayload<'a> = &'a [u8];

    fn receive<'a>(&'a mut self) -> Result<ReceiveOutcome<Self::ReceivePayload<'a>>, Error> {
        let mut incoming = self.incoming.borrow_mut();
        if incoming.is_empty() {
            return Ok(ReceiveOutcome::Idle);
        }
        let count = incoming.len().min(self.read_size);
        self.read_buffer.clear();
        self.read_buffer.extend(incoming.drain(..count));
        drop(incoming);
        Ok(ReceiveOutcome::Payload(&self.read_buffer))
    }
}

impl Flush for Pipe {
    fn flush(&mut self) -> Result<(), Error> {
        Ok(())
    }
}

type Duplex = FrameDuplex<Pipe, U64FrameDeserializer, U64FrameSerializer>;

fn duplex(session: Pipe, capacity: usize) -> Duplex {
    FrameDuplex::new(session, U64FrameDeserializer::new(), U64FrameSerializer::new(), capacity)
}

fn establish(client: &mut Duplex, session: &mut Duplex) {
    while client.status() == SessionStatus::Establishing || session.status() == SessionStatus::Establishing {
        client.drive().unwrap();
        session.drive().unwrap();
    }
}

#[test]
fn one_small_frame() {
    let (client, session) = pipe(65536, 4096);
    let mut client = duplex(client, 1024);
    let mut session = duplex(session, 1024);
    establish(&mut client, &mut session);

    // construct receive holder and a large payload to publish
    let mut receive_payload = None;
    let mut publish_payload = Vec::new();
    for i in 0..512 {
        publish_payload.push(i as u8)
    }

    // send the message with the client while receiveing it with the server session
    let mut remaining = publish_payload.as_slice();
    while let PublishOutcome::Incomplete(pw) = client.publish(remaining).unwrap() {
        remaining = pw;
        client.drive().unwrap();
        if let ReceiveOutcome::Payload(receive) = session.receive().unwrap() {
            receive_payload = Some(Vec::from(receive));
        }
    }

    // drive publish from client while receiveing single payload from session
    while let None = receive_payload {
        client.drive().unwrap();
        if let ReceiveOutcome::Payload(receive) = session.receive().unwrap() {
            receive_payload = Some(Vec::from(receive));
        }
    }
    let receive_payload = receive_payload.unwrap();

    // validate the received message
    assert_eq!(receive_payload.len(), publish_payload.len());
    assert_eq!(receive_payload, publish_payload);
}

#[test]
fn one_large_frame() {
    let (client, session) = pipe(65536, 65536);
    let mut client = duplex(client, 1024);
    let mut session = duplex(session, 1024);
    establish(&mut client, &mut session);

    // construct receive holder and payload larger than the publish buffer
    let mut receive_payload = None;
    let mut publish_payload = Vec::new();
    for i in 0..888888 {
        publish_payload.push(i as u8)
    }

    // send the message with the client while receiveing it with the server session
    let mut remaining = publish_payload.as_slice();
    while let PublishOutcome::Incomplete(pw) = client.publish(remaining).unwrap() {
        remaining = pw;
        if let ReceiveOutcome::Payload(receive) = session.receive().unwrap() {
            receive_payload = Some(Vec::from(receive));
        }
    }

    // drive publish from client while receiveing single payload from session
    while let None = receive_payload {
        client.drive().unwrap();
        if let ReceiveOutcome::Payload(receive) = session.receive().unwrap() {
            receive_payload = Some(Vec::from(receive));
        }
    }
    let receive_payload = receive_payload.unwrap();

    // validate the received message
    assert_eq!(receive_payload.len(), publish_payload.len());
    assert_eq!(receive_payload, publish_payload);
}

#[test]
fn framing_slow_consumer() {
    let (client, session) = pipe(65536, 4096);

    // use a small publish buffer to stress test
    let mut client = duplex(client, 1024);
    let mut session = duplex(session, 1024);
    establish(&mut client, &mut session);

    // send 100,000 messages with client while "slowly" receiveing with session
    let mut received = Vec::new();
    let mut backpressure = false;
    for i in 0..100000 {
        let m = format!("test test test test hello world {i:06}!");
        // send the message with the client while receiveing it with the server session
        let mut remaining = m.as_bytes();
        while let PublishOutcome::Incomplete(pw) = client.publish(remaining).unwrap() {
            client.drive().unwrap();
            remaining = pw;
            backpressure = true;
            // only receive when backpressure is encountered to simulate a slow consumer
            for _ in 0..10 {
                if let ReceiveOutcome::Payload(receive) = session.receive().unwrap() {
                    received.push(String::from_utf8_lossy(receive).to_string());
                }
            }
        }
        client.drive().unwrap();
    }

    // assert backpressure and publish failures were tested
    assert!(backpressure);

    // finish receiveing with session until all 100,000 messages were received while driving client to publish completion
    while received.len() < 100000 {
        client.drive().unwrap();
        if let ReceiveOutcome::Payload(receive) = session.receive().unwrap() {
            received.push(String::from_utf8_lossy(receive).to_string());
        }
    }

    // validate the received messages
    for i in 0..100000 {
        assert_eq!(
            received.get(i).expect(&format!("message idx {i}")),
            &format!("test test test test hello world {i:06}!")
        );
    }
}

#[test]
fn buffer_takes_all_or_nothing() {
    let mut buf = GrowableCircleBuf::new(8).unwrap();
    assert!(buf.is_empty());
    assert!(buf.try_write(&vec![&[1, 2, 3][..], &[4, 5][..]]).unwrap());
    assert_eq!(buf.peek_read(), &[1, 2, 3, 4, 5]);
    assert!(!buf.try_write(&vec![&[6, 7, 8, 9, 10, 11, 12][..]]).unwrap());
    assert_eq!(buf.peek_read(), &[1, 2, 3, 4, 5]);
    buf.advance_read(2).unwrap();
    assert_eq!(buf.peek_read(), &[3, 4, 5]);
    assert!(!buf.is_empty());
    buf.advance_read(3).unwrap();
    assert!(buf.is_empty());
    assert!(buf.peek_read().is_empty());
}

#[test]
fn empty_buffer_takes_what_exceeds_it() {
    let mut buf = GrowableCircleBuf::new(4).unwrap();
    let payload: Vec<u8> = (0..100).collect();
    assert!(buf.try_write(&vec![payload.as_slice()]).unwrap());
    // another one has to wait, while what fits is read after it
    assert!(!buf.try_write(&vec![payload.as_slice()]).unwrap());
    assert!(buf.try_write(&vec![&[200][..]]).unwrap());
    let mut read = Vec::new();
    while !buf.is_empty() {
        let run = buf.peek_read().to_vec();
        let count = run.len().min(7);
        read.extend_from_slice(&run[..count]);
        buf.advance_read(count).unwrap();
    }
    assert_eq!(read.pop(), Some(200));
    assert_eq!(read, payload);
    assert!(buf.try_write(&vec![&[1, 2][..]]).unwrap());
    assert_eq!(buf.peek_read(), &[1, 2]);
}

#[test]
fn buffer_gives_a_wrapped_payload_in_two_runs() {
    let mut buf = GrowableCircleBuf::new(8).unwrap();
    let mut sent: Vec<u8> = Vec::new();
    let mut read: Vec<u8> = Vec::new();
    for i in 0..200u8 {
        let payload = [i, i.wrapping_add(1), i.wrapping_add(2)];
        if buf.try_write(&vec![&payload[..]]).unwrap() {
            sent.extend_from_slice(&payload);
        }
        let run = buf.peek_read().to_vec();
        let count = run.len().min(2);
        read.extend_from_slice(&run[..count]);
        buf.advance_read(count).unwrap();
    }
    while !buf.is_empty() {
        let run = buf.peek_read().to_vec();
        buf.advance_read(run.len()).unwrap();
        read.extend_from_slice(&run);
    }
    assert_eq!(read, sent);
}

#[test]
fn u64_frame_has_its_length_first() {
    let mut buf = GrowableCircleBuf::new(64).unwrap();
    let mut serializer = U64FrameSerializer::new();
    let outcome = serializer.serialize_frame(&[7, 8, 9], &mut buf).unwrap();
    assert!(outcome.is_published());
    assert_eq!(buf.peek_read(), &[3, 0, 0, 0, 0, 0, 0, 0, 7, 8, 9]);
}

#[test]
fn u64_frame_is_read_back_before_following_data() {
    let data = [2, 0, 0, 0, 0, 0, 0, 0, 5, 6, 99, 98];
    let mut deserializer = U64FrameDeserializer::new();
    assert!(deserializer.check_deserialize_frame(&data, false).unwrap());
    let SizedFrame { frame, size } = deserializer.deserialize_frame(&data).unwrap();
    assert_eq!(frame, &[5, 6]);
    assert_eq!(size, 10);
}

#[test]
fn part_of_u64_frame_is_not_complete() {
    let mut deserializer = U64FrameDeserializer::new();
    assert!(!deserializer.check_deserialize_frame(&[], false).unwrap());
    assert!(!deserializer.check_deserialize_frame(&[2, 0, 0, 0, 0, 0, 0], false).unwrap());
    assert!(!deserializer.check_deserialize_frame(&[2, 0, 0, 0, 0, 0, 0, 0, 5], false).unwrap());
    assert!(deserializer.check_deserialize_frame(&[0, 0, 0, 0, 0, 0, 0, 0], false).unwrap());
}

#[test]
fn refused_frame_is_given_back_whole() {
    let (client, mut session) = pipe(16, 16);
    let mut client = duplex(client, 16);
    client.drive().unwrap();
    assert!(client.publish(&[1; 8]).unwrap().is_published());
    let payload = [2; 8];
    match client.publish(&payload).unwrap() {
        PublishOutcome::Incomplete(rest) => assert_eq!(rest, &payload),
        PublishOutcome::Published => panic!("buffer is full"),
    }
    // driving makes room
    client.drive().unwrap();
    assert!(client.publish(&payload).unwrap().is_published());
    let mut expected = vec![8, 0, 0, 0, 0, 0, 0, 0];
    expected.extend_from_slice(&[1; 8]);
    match session.receive().unwrap() {
        ReceiveOutcome::Payload(x) => assert_eq!(x, expected.as_slice()),
        _ => panic!("first frame"),
    }
}

#[test]
fn flush_sends_what_is_buffered() {
    let (client, mut session) = pipe(1024, 1024);
    let mut publisher = FramePublisher::new(client, U64FrameSerializer::new(), 64);
    publisher.drive().unwrap();
    assert!(publisher.publish(&[1, 2]).unwrap().is_published());
    assert!(matches!(session.receive(), Ok(ReceiveOutcome::Idle)));
    publisher.flush().unwrap();
    match session.receive().unwrap() {
        ReceiveOutcome::Payload(x) => assert_eq!(x, &[2, 0, 0, 0, 0, 0, 0, 0, 1, 2]),
        _ => panic!("frame"),
    }
}

#[test]
fn duplex_flush_sends_what_is_buffered() {
    let (client, mut session) = pipe(1024, 1024);
    let mut client = duplex(client, 64);
    client.drive().unwrap();
    assert!(client.publish(&[3]).unwrap().is_published());
    client.flush().unwrap();
    match session.receive().unwrap() {
        ReceiveOutcome::Payload(x) => assert_eq!(x, &[1, 0, 0, 0, 0, 0, 0, 0, 3]),
        _ => panic!("frame"),
    }
}

#[test]
fn error_of_the_session_is_passed_on() {
    let (mut client, _session) = pipe(1024, 1024);
    client.fails = true;
    let mut publisher = FramePublisher::new(client, U64FrameSerializer::new(), 64);
    publisher.drive().unwrap();
    assert!(publisher.publish(&[1, 2]).unwrap().is_published());
    assert_eq!(publisher.drive().unwrap_err().kind(), ErrorKind::BrokenPipe);
    publisher.close();
    assert_eq!(publisher.status(), SessionStatus::Terminated);
    assert_eq!(publisher.drive().unwrap_err().kind(), ErrorKind::NotConnected);
}

#[test]
fn receiver_gives_each_payload_once() {
    let (mut client, session) = pipe(1024, 3);
    let mut receiver = FrameReceiver::new(session, U64FrameDeserializer::new());
    receiver.drive().unwrap();
    client.publish(&[1, 0, 0, 0, 0, 0, 0, 0, 42, 2, 0, 0, 0, 0, 0, 0, 0, 43, 44]).unwrap();
    let mut received: Vec<Vec<u8>> = Vec::new();
    let mut idle = 0;
    while idle < 3 {
        match receiver.receive().unwrap() {
            ReceiveOutcome::Payload(x) => received.push(x.to_vec()),
            ReceiveOutcome::Buffered => {}
            ReceiveOutcome::Idle => idle += 1,
        }
    }
    assert_eq!(received, vec![vec![42], vec![43, 44]]);
}

#[test]
fn buffered_bytes_come_before_received_ones() {
    let (mut client, session) = pipe(1024, 1024);
    let mut session = duplex(session, 64);
    session.drive().unwrap();
    session.buffer_received(&[1, 0, 0, 0, 0, 0, 0, 0]);
    client.publish(&[77]).unwrap();
    let mut received = None;
    for _ in 0..4 {
        if let ReceiveOutcome::Payload(x) = session.receive().unwrap() {
            received = Some(x.to_vec());
        }
    }
    assert_eq!(received, Some(vec![77]));
}

#[test]
fn ring_is_read_up_to_the_end_of_its_storage() {
    let mut buf = GrowableCircleBuf::new(8).unwrap();
    assert!(buf.try_write(&vec![&[1, 2, 3, 4, 5, 6]]).unwrap());
    buf.advance_read(5).unwrap();
    assert!(buf.try_write(&vec![&[7, 8, 9, 10]]).unwrap());
    assert_eq!(buf.peek_read(), &[6, 7, 8]);
    buf.advance_read(3).unwrap();
    assert_eq!(buf.peek_read(), &[9, 10]);
    buf.advance_read(2).unwrap();
    assert!(buf.peek_read().is_empty());
}

#[test]
fn new_receiver_has_nothing_buffered() {
    let (client, peer) = pipe(64, 64);
    let mut receiver = FrameReceiver::new(client, U64FrameDeserializer::new());
    assert_eq!(receiver.status(), peer.status());
    assert!(matches!(receiver.receive(), Ok(ReceiveOutcome::Idle)));
}
