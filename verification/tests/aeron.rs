use std::cell::RefCell;
use std::rc::Rc;

use nbio::aeron::{
    allocated, check_text, messages_polled, payload_outcome, polled, AeronStep, BorrowedMessage, Buffer, Connection,
    Destructor, ManagedPtr, Message, OwnedMessage, Publication, PublishMessage, ReceiveStep, Subscription,
    SubscriptionHandler,
};
use nbio::{Callback, DriveOutcome, Error, ErrorKind, PublishOutcome, ReceiveOutcome, SessionStatus};

/// The messages of a stream in memory, with their reserved values.
type Log = Rc<RefCell<Vec<(Vec<u8>, i64)>>>;

/// Keeps the payloads it is called with.
struct Keep(Rc<RefCell<Vec<Vec<u8>>>>);

impl<'a> Callback<BorrowedMessage<'a>> for Keep {
    fn callback(&mut self, payload: BorrowedMessage<'a>) {
        self.0.borrow_mut().push(payload.payload.to_vec());
    }
}

/// A subscription is at a position of the log.
struct Reader {
    log: Log,
    position: usize,
}

type Pub<T> = Publication<T, Log, Log>;
type Sub<T> = Subscription<T, Log, Reader, Keep>;

fn drive_publication<T>(publication: &mut Pub<T>, log: &Log) -> Result<DriveOutcome, Error> {
    match publication.begin_drive()? {
        AeronStep::Done(outcome) => Ok(outcome),
        AeronStep::Add => publication.added(0, Some(Rc::clone(log))),
        AeronStep::PollConnection => publication.connection_polled(0, "failed", Some(Rc::clone(log))),
        AeronStep::PollMessages => panic!("publications have no messages"),
    }
}

/// Hand up to the limit of messages to the handler.
fn poll<T>(subscription: &mut Sub<T>) -> i32 {
    let limit = subscription.fragment_limit();
    let stream_id = subscription.stream_id();
    let mut messages = Vec::new();
    if let Connection::Connected(reader) = subscription.connection_mut() {
        let log = Rc::clone(&reader.log);
        while messages.len() < limit && reader.position < log.borrow().len() {
            messages.push(log.borrow()[reader.position].clone());
            reader.position += 1;
        }
    }
    for (payload, reserved_value) in &messages {
        subscription.handler_mut().assembled(BorrowedMessage {
            term_offset: 0,
            session_id: 1,
            stream_id,
            term_id: 2,
            reserved_value: *reserved_value,
            payload,
        });
    }
    messages.len() as i32
}

fn drive_subscription<T>(subscription: &mut Sub<T>, log: &Log) -> Result<DriveOutcome, Error> {
    match subscription.begin_drive()? {
        AeronStep::Done(outcome) => Ok(outcome),
        AeronStep::Add => subscription.added(0, "failed", Some(Rc::clone(log))),
        AeronStep::PollConnection => match subscription.connection_polled(0, "failed", Some(Rc::clone(log)))? {
            None => Ok(DriveOutcome::Idle),
            Some(log) => subscription.connected(0, "failed", Some(Reader { log, position: 0 })),
        },
        AeronStep::PollMessages => {
            let result = poll(subscription);
            messages_polled(result, "aeron_subscription_poll failed")
        }
    }
}

fn receive<T>(subscription: &mut Sub<T>) -> Result<ReceiveOutcome<OwnedMessage>, Error> {
    match subscription.begin_receive_message()? {
        ReceiveStep::Payload(message) => Ok(ReceiveOutcome::Payload(message)),
        ReceiveStep::PollMessages => {
            let result = poll(subscription);
            subscription.received_message(result, "aeron_subscription_poll failed")
        }
    }
}

fn offer(log: &Log, buffer: &[u8], reserved_value: i64) -> i64 {
    log.borrow_mut().push((buffer.to_vec(), reserved_value));
    log.borrow().len() as i64
}

fn publish<'a>(publication: &mut Pub<Buffer>, payload: &'a [u8]) -> Result<PublishOutcome<&'a [u8]>, Error> {
    let result = offer(publication.begin_publish()?, payload, 0);
    Pub::<Buffer>::map_result(payload, result)
}

fn setup<P, S>(stream_id: i32, callback: Option<Keep>) -> (Pub<P>, Sub<S>, Log) {
    let log: Log = Rc::new(RefCell::new(Vec::new()));
    let mut publication: Pub<P> = Publication::new("aeron:ipc".to_owned(), stream_id);
    while publication.status() == SessionStatus::Establishing {
        drive_publication(&mut publication, &log).unwrap();
    }
    if publication.status() != SessionStatus::Established {
        panic!("publication could not be established");
    }
    let mut subscription: Sub<S> = Subscription::new("aeron:ipc".to_owned(), stream_id);
    if let Some(callback) = callback {
        subscription = subscription.with_callback(callback).ok().unwrap();
    }
    while subscription.status() == SessionStatus::Establishing {
        drive_subscription(&mut subscription, &log).unwrap();
    }
    if subscription.status() != SessionStatus::Established {
        panic!("subscription could not be established");
    }
    (publication, subscription, log)
}

#[test]
fn test_publish_receive() {
    let (mut p, mut s, log) = setup::<Buffer, Buffer>(1, None);

    assert!(publish(&mut p, "hello world!".as_bytes()).unwrap().is_published());

    let mut received = Vec::<Vec<u8>>::new();
    for _ in 0..10 {
        drive_subscription(&mut s, &log).unwrap();
        if let ReceiveOutcome::Payload(x) = payload_outcome(receive(&mut s).unwrap()) {
            received.push(x);
        }
    }
    assert_eq!(1, received.len());
    assert_eq!("hello world!".as_bytes(), received.get(0).unwrap());

    assert!(publish(&mut p, "number 2!".as_bytes()).unwrap().is_published());
    assert!(publish(&mut p, "number 3!".as_bytes()).unwrap().is_published());

    let mut s = s;

    let mut received = Vec::new();
    for _ in 0..10 {
        drive_subscription(&mut s, &log).unwrap();
        if let ReceiveOutcome::Payload(x) = payload_outcome(receive(&mut s).unwrap()) {
            received.push(x);
        }
    }

    assert_eq!(2, received.len());
    assert_eq!("number 2!".as_bytes(), received.get(0).unwrap());
    assert_eq!("number 3!".as_bytes(), received.get(1).unwrap());
}

#[test]
fn test_publish_callback() {
    let received = Rc::new(RefCell::new(Vec::new()));
    let (mut p, mut s, log) = setup::<Buffer, Buffer>(2, Some(Keep(Rc::clone(&received))));

    assert!(publish(&mut p, "hello world!".as_bytes()).unwrap().is_published());
    assert!(publish(&mut p, "number 2!".as_bytes()).unwrap().is_published());
    assert!(publish(&mut p, "number 3!".as_bytes()).unwrap().is_published());

    for _ in 0..10 {
        drive_subscription(&mut s, &log).unwrap();
    }
    assert_eq!(3, received.borrow().len());
    assert_eq!("hello world!".as_bytes(), received.borrow().get(0).unwrap());
    assert_eq!("number 2!".as_bytes(), received.borrow().get(1).unwrap());
    assert_eq!("number 3!".as_bytes(), received.borrow().get(2).unwrap());

    // polling is not enabled
    let err = receive(&mut s).err().unwrap();
    assert_eq!(err.kind(), ErrorKind::Other);
    assert_eq!(err.message, "subscription is configured for callback mode, polling receive is not enabled");
}

#[test]
fn test_reserved_value() {
    let (mut p, mut s, log) = setup::<Message, Message>(3, None);

    let pub_msg = PublishMessage { buffer: "hello world!".as_bytes(), reserved_value: 42 };
    let result = offer(p.begin_publish().unwrap(), pub_msg.buffer, pub_msg.reserved_value);
    assert!(Pub::<Message>::map_result(pub_msg, result).unwrap().is_published());
    drive_publication(&mut p, &log).unwrap();

    let mut received = Vec::<OwnedMessage>::new();
    for _ in 0..10 {
        drive_subscription(&mut s, &log).unwrap();
        if let ReceiveOutcome::Payload(x) = receive(&mut s).unwrap() {
            received.push(x);
        }
    }
    assert_eq!(1, received.len());
    let rcv_msg = received.get(0).unwrap();
    assert_eq!("hello world!", String::from_utf8(rcv_msg.payload.clone()).unwrap());
    assert_eq!(42, rcv_msg.reserved_value);
    let copy = rcv_msg.clone();
    assert_eq!((copy.stream_id, copy.session_id, copy.term_id, copy.term_offset), (3, 1, 2, 0));
}

#[test]
fn messages_are_queued_in_order() {
    let (mut p, mut s, _log) = setup::<Buffer, Buffer>(4, None);
    let mut limited: Sub<Buffer> = Subscription::new("aeron:ipc".to_owned(), 4).with_fragment_limit(2);
    assert_eq!(limited.fragment_limit(), 2);
    assert_eq!(limited.begin_receive_message().err().unwrap().kind(), ErrorKind::NotConnected);
    for i in 0..25u8 {
        publish(&mut p, &[i]).unwrap();
    }
    let mut received = Vec::new();
    while let ReceiveOutcome::Payload(x) = payload_outcome(receive(&mut s).unwrap()) {
        received.push(x[0]);
    }
    assert_eq!(received, (0..25).collect::<Vec<u8>>());
    let err = s.received_message(-1, "poll failed").err().unwrap();
    assert_eq!((err.kind(), err.message.as_str()), (ErrorKind::Other, "poll failed"));
}

#[test]
fn offers_are_decided() {
    let map = |result| Pub::<Buffer>::map_result(7, result);
    assert!(map(0).unwrap().is_published());
    assert!(map(i64::MAX).unwrap().is_published());
    assert!(map(-1).unwrap().is_published());
    assert!(matches!(map(-2), Ok(PublishOutcome::Incomplete(7))));
    assert!(matches!(map(-3), Ok(PublishOutcome::Incomplete(7))));
    for (result, kind, name) in [
        (-4, ErrorKind::ConnectionReset, "AERON_PUBLICATION_CLOSED"),
        (-5, ErrorKind::Other, "AERON_PUBLICATION_MAX_POSITION_EXCEEDED"),
        (-6, ErrorKind::Other, "AERON_PUBLICATION_ERROR"),
        (-7, ErrorKind::Other, "-7"),
        (-1000, ErrorKind::Other, "-1000"),
        (i32::MIN as i64, ErrorKind::Other, "-2147483648"),
        (i64::MIN, ErrorKind::Other, "0"),
    ] {
        let err = map(result).unwrap_err();
        assert_eq!(err.kind(), kind);
        assert_eq!(err.message, format!("aeron_publication_offer error: {name}"));
    }
}

#[test]
fn results_of_the_client_are_decided() {
    assert_eq!(allocated(0, "failed", "missing", Some(1)).unwrap(), 1);
    assert_eq!(allocated(-1, "failed", "missing", Some(1)).unwrap_err().kind(), ErrorKind::ConnectionRefused);
    let err = allocated::<u8>(0, "failed", "missing", None).unwrap_err();
    assert_eq!((err.kind(), err.message.as_str()), (ErrorKind::OutOfMemory, "missing"));
    assert_eq!(polled(0, "failed", Some(1)).unwrap(), Some(1));
    assert_eq!(polled::<u8>(1, "failed", None).unwrap(), None);
    assert_eq!(polled(-1, "failed", Some(1)).unwrap_err().message, "failed");
    assert_eq!(messages_polled(0, "failed").unwrap(), DriveOutcome::Idle);
    assert_eq!(messages_polled(3, "failed").unwrap(), DriveOutcome::Active);
    assert_eq!(messages_polled(-3, "failed").unwrap_err().kind(), ErrorKind::Other);
    assert!(check_text("aeron:ipc").is_ok());
    let err = check_text("aeron\0ipc\0").unwrap_err();
    assert_eq!(err.kind(), ErrorKind::InvalidData);
    assert_eq!(err.message, "nul byte found in provided data at position: 5");
    let publication: Pub<Buffer> = Publication::new("a\0".to_owned(), 1);
    assert_eq!(publication.begin_drive().unwrap_err().kind(), ErrorKind::InvalidData);
}

#[test]
fn failed_subscriptions_are_errors() {
    let log: Log = Rc::new(RefCell::new(Vec::new()));
    let mut subscription: Sub<Buffer> = Subscription::new("aeron:ipc".to_owned(), 9);
    assert_eq!((subscription.uri().as_str(), subscription.stream_id()), ("aeron:ipc", 9));
    let err = subscription.added(-1, "failed", Some(Rc::clone(&log))).unwrap_err();
    assert_eq!((err.kind(), err.message.as_str()), (ErrorKind::ConnectionRefused, "failed"));
    let err = subscription.added(0, "failed", None).unwrap_err();
    assert_eq!(err.kind(), ErrorKind::OutOfMemory);
    assert_eq!(err.message, "aeron_async_add_subscription did not allocate");
    assert!(matches!(subscription.connection_mut(), Connection::Initialized));
    assert_eq!(subscription.begin_drive().unwrap(), AeronStep::Add);
    subscription.added(0, "failed", Some(Rc::clone(&log))).unwrap();
    assert_eq!(subscription.begin_drive().unwrap(), AeronStep::PollConnection);
    assert_eq!(subscription.connection_polled::<u8>(0, "failed", None).unwrap(), None);
    assert_eq!(subscription.connection_polled(-1, "failed", Some(1)).unwrap_err().message, "failed");
    assert_eq!(subscription.status(), SessionStatus::Establishing);
    let err = subscription.connected(0, "failed", None).unwrap_err();
    assert_eq!(err.message, "aeron_fragment_assembler_create did not allocate");
    assert_eq!(subscription.status(), SessionStatus::Establishing);
    assert_eq!(
        subscription.connected(-1, "failed", Some(Reader { log, position: 0 })).unwrap_err().kind(),
        ErrorKind::ConnectionRefused
    );
    assert_eq!(subscription.status(), SessionStatus::Establishing);
    assert_eq!(subscription.begin_drive().unwrap(), AeronStep::PollConnection);
    assert!(matches!(subscription.close(), Connection::Connecting(_)));
    assert_eq!(subscription.status(), SessionStatus::Terminated);
    let err = subscription.with_callback(Keep(Rc::new(RefCell::new(Vec::new())))).err().unwrap();
    assert_eq!(err.message, "callback must be set prior to connecting");
}

#[test]
fn failed_publications_are_errors() {
    let log: Log = Rc::new(RefCell::new(Vec::new()));
    let mut publication: Pub<Buffer> = Publication::new("aeron:ipc".to_owned(), 9);
    assert_eq!((publication.uri().as_str(), publication.stream_id()), ("aeron:ipc", 9));
    let err = publication.added(-12, Some(Rc::clone(&log))).unwrap_err();
    assert_eq!(err.kind(), ErrorKind::ConnectionRefused);
    assert_eq!(err.message, "aeron_async_add_publication error: -12");
    assert_eq!(publication.added(0, None).unwrap_err().message, "aeron_async_add_publication did not allocate");
    publication.added(0, Some(Rc::clone(&log))).unwrap();
    assert_eq!(publication.connection_polled(0, "failed", None).unwrap(), DriveOutcome::Idle);
    assert_eq!(publication.connection_polled(-1, "failed", None).unwrap_err().kind(), ErrorKind::ConnectionRefused);
    assert!(matches!(publication.connection_mut(), Connection::Connecting(_)));
    assert!(matches!(publication.close(), Connection::Connecting(_)));
    assert_eq!(publication.status(), SessionStatus::Terminated);
    assert_eq!(publication.begin_drive().unwrap_err().message, "not connected");
    assert_eq!(publication.begin_publish().err().unwrap().kind(), ErrorKind::NotConnected);
}

#[test]
fn handles_are_released_once() {
    let mut handle: ManagedPtr<u8, u16> = ManagedPtr::new(1).with_drop_fn(Destructor::Call(5));
    assert_eq!(handle.ptr(), Some(&1));
    assert!(matches!(handle.release(), Some((1, Destructor::Call(5)))));
    assert!(handle.release().is_none());
    let mut handle: ManagedPtr<u8, u16> = ManagedPtr::new(1);
    assert_eq!(handle.set_drop_fn(Destructor::Forget).ptr(), Some(&1));
    assert!(matches!(handle.release(), Some((1, Destructor::Forget))));
    assert!(ManagedPtr::<u8, u16>::null().release().is_none());
    assert!(matches!(ManagedPtr::<u8, u16>::new(2).release(), Some((2, Destructor::Free))));
    let handler: SubscriptionHandler<Keep> = SubscriptionHandler::Receiver(Default::default());
    assert!(!handler.is_callback());
}
