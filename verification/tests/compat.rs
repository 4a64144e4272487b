use nbio::compat::{
    CallbackDriver, CallbackRefDriver, MappingCallback, MappingReceiver, MutexQueue, Queue, QueueCallback,
    QueueCallbackRef, QueueReceiver, RefCellQueue,
};
use nbio::crossbeam::{publish_outcome, receive_outcome, ChannelReceiver, ChannelSender, Received, Sent};
use nbio::mock::MockSession;
use nbio::{
    Callback, CallbackRef, DriveOutcome, ErrorKind, Publish, PublishOutcome, Receive, ReceiveOutcome, Session,
    SessionStatus,
};

/// Keeps what it is called with.
struct Keep(std::rc::Rc<std::cell::RefCell<Vec<u32>>>);

impl Callback<u32> for Keep {
    fn callback(&mut self, payload: u32) {
        self.0.borrow_mut().push(payload);
    }
}

impl CallbackRef<u32> for Keep {
    fn callback_ref(&mut self, payload: &u32) {
        self.0.borrow_mut().push(*payload);
    }
}

fn keep() -> (Keep, std::rc::Rc<std::cell::RefCell<Vec<u32>>>) {
    let kept = std::rc::Rc::new(std::cell::RefCell::new(Vec::new()));
    (Keep(std::rc::Rc::clone(&kept)), kept)
}

#[test]
fn payloads_are_mapped_before_the_callback() {
    let (callback, kept) = keep();
    let mut mapping = MappingCallback::new(|x: u8| x as u32 * 2, callback);
    mapping.callback(4);
    let (callback, kept_ref) = keep();
    let mut mapping = MappingCallback::new(|x: &u8| *x as u32 * 3, callback);
    mapping.callback_ref(&4);
    assert_eq!(*kept.borrow(), vec![8]);
    assert_eq!(*kept_ref.borrow(), vec![12]);
}

#[test]
fn received_payloads_are_mapped() {
    let mut session = MockSession::<u8, u8>::new();
    session.receive_queue.push_back(4);
    let mut receiver = MappingReceiver::new(|x: u8| format!("<{x}>"), session);
    match receiver.receive().unwrap() {
        ReceiveOutcome::Payload(x) => assert_eq!(x, "<4>"),
        _ => panic!("payload"),
    }
    assert!(matches!(receiver.receive(), Ok(ReceiveOutcome::Idle)));
    assert!(receiver.publish(1).unwrap().is_published());
    assert_eq!(receiver.drive().unwrap(), DriveOutcome::Idle);
    receiver.close();
    assert_eq!(receiver.status(), SessionStatus::Terminated);
}

#[test]
fn first_pushed_is_popped_first() {
    let mut queue = RefCellQueue::new();
    queue.push(1);
    queue.push(2);
    assert_eq!((queue.pop(), queue.pop(), queue.pop()), (Some(1), Some(2), None));
    let mut queue = MutexQueue::new();
    queue.push(1);
    queue.push(2);
    assert_eq!((queue.pop(), queue.pop(), queue.pop()), (Some(1), Some(2), None));
}

#[test]
fn receiver_polls_its_queue() {
    let mut queue = RefCellQueue::new();
    queue.push("x");
    let mut receiver = QueueReceiver::new(MockSession::<u8, u8>::new(), queue);
    assert!(matches!(receiver.receive(), Ok(ReceiveOutcome::Payload("x"))));
    assert!(matches!(receiver.receive(), Ok(ReceiveOutcome::Idle)));
    assert!(receiver.publish(3).unwrap().is_published());
    assert_eq!(receiver.drive().unwrap(), DriveOutcome::Idle);
    receiver.close();
    assert_eq!(receiver.status(), SessionStatus::Terminated);
    assert_eq!(receiver.publish(3).unwrap_err().kind(), ErrorKind::NotConnected);
}

#[test]
fn callbacks_queue_mapped_payloads() {
    let mut callback = QueueCallback::new(|x: u8| x + 1);
    callback.callback(1);
    callback.callback(5);
    assert_eq!((callback.pop(), callback.pop(), callback.pop()), (Some(2), Some(6), None));
    let mut callback = QueueCallbackRef::new(|x: &u8| *x + 2);
    callback.callback_ref(&1);
    assert_eq!((callback.pop(), callback.pop()), (Some(3), None));
}

#[test]
fn dispatched_payloads_are_polled_in_order() {
    let callback = QueueCallback::new(|x: u8| u32::from(x) + 1);
    let mut receiver = QueueReceiver::new(MockSession::<u8, u8>::new(), callback);
    receiver.queue_mut().callback(1);
    receiver.queue_mut().callback(5);
    assert!(matches!(receiver.receive(), Ok(ReceiveOutcome::Payload(2))));
    receiver.queue_mut().callback(3);
    assert_eq!(receiver.drive().unwrap(), DriveOutcome::Idle);
    assert!(matches!(receiver.receive(), Ok(ReceiveOutcome::Payload(6))));
    assert!(matches!(receiver.receive(), Ok(ReceiveOutcome::Payload(4))));
    assert!(matches!(receiver.receive(), Ok(ReceiveOutcome::Idle)));
    let callback = QueueCallbackRef::new(|x: &u8| *x + 2);
    let mut receiver = QueueReceiver::new(MockSession::<u8, u8>::new(), callback);
    receiver.queue_mut().callback_ref(&1);
    receiver.queue_mut().push(9);
    assert!(matches!(receiver.receive(), Ok(ReceiveOutcome::Payload(3))));
    assert!(matches!(receiver.receive(), Ok(ReceiveOutcome::Payload(9))));
    assert!(matches!(receiver.receive(), Ok(ReceiveOutcome::Idle)));
}

#[test]
fn driving_dispatches_payloads() {
    let mut session = MockSession::<u32, u8>::new();
    session.receive_queue.push_back(7);
    session.receive_queue.push_back(8);
    let (callback, kept) = keep();
    let mut driver = CallbackDriver::new(session, callback);
    assert_eq!(driver.drive().unwrap(), DriveOutcome::Active);
    assert_eq!(driver.drive().unwrap(), DriveOutcome::Active);
    assert_eq!(driver.drive().unwrap(), DriveOutcome::Idle);
    assert_eq!(*kept.borrow(), vec![7, 8]);
    assert!(driver.publish(1).unwrap().is_published());
    driver.close();
    assert_eq!(driver.status(), SessionStatus::Terminated);
    assert!(driver.drive().is_err());
}

#[test]
fn driving_dispatches_references() {
    let mut session = MockSession::<u32, u8>::new();
    session.receive_queue.push_back(7);
    session.drive_result_queue.push_back(Ok(DriveOutcome::Active));
    let (callback, kept) = keep();
    let mut driver = CallbackRefDriver::new(session, callback);
    while driver.drive().unwrap() == DriveOutcome::Active {}
    assert_eq!(*kept.borrow(), vec![7]);
    assert!(driver.publish(1).unwrap().is_published());
    driver.close();
    assert_eq!(driver.status(), SessionStatus::Terminated);
}

#[test]
fn channel_carries_payloads() {
    let (sender, receiver) = crossbeam_channel::bounded(2);
    let mut sender = ChannelSender::new(sender);
    let mut receiver = ChannelReceiver::new(receiver);
    assert_eq!(sender.status(), SessionStatus::Established);
    assert_eq!(sender.drive().unwrap(), DriveOutcome::Idle);
    assert!(matches!(receiver.receive(), Ok(ReceiveOutcome::Idle)));
    assert!(sender.publish(1).unwrap().is_published());
    assert!(sender.publish(2).unwrap().is_published());
    // the channel is full
    assert!(matches!(sender.publish(3), Ok(PublishOutcome::Incomplete(3))));
    assert!(matches!(receiver.receive(), Ok(ReceiveOutcome::Payload(1))));
    assert!(sender.publish(3).unwrap().is_published());
    assert!(matches!(receiver.receive(), Ok(ReceiveOutcome::Payload(2))));
    assert!(matches!(receiver.receive(), Ok(ReceiveOutcome::Payload(3))));
    assert_eq!(receiver.drive().unwrap(), DriveOutcome::Idle);
    receiver.close();
    assert_eq!(receiver.status(), SessionStatus::Terminated);
    sender.close();
    assert_eq!(sender.status(), SessionStatus::Terminated);
}

#[test]
fn channel_outcomes_are_decided() {
    assert!(publish_outcome(Sent::<u8>::Taken).is_published());
    assert!(publish_outcome(Sent::Disconnected(1)).is_published());
    assert!(matches!(publish_outcome(Sent::Full(1)), PublishOutcome::Incomplete(1)));
    assert!(matches!(receive_outcome(Received::Payload(1)), ReceiveOutcome::Payload(1)));
    assert!(matches!(receive_outcome(Received::<u8>::Empty), ReceiveOutcome::Idle));
    assert!(matches!(receive_outcome(Received::<u8>::Disconnected), ReceiveOutcome::Idle));
}

#[test]
fn channel_without_another_side_is_established() {
    let (sender, receiver) = crossbeam_channel::unbounded::<u8>();
    drop(receiver);
    let mut sender = ChannelSender::new(sender);
    assert!(sender.publish(1).unwrap().is_published());
    assert_eq!(sender.status(), SessionStatus::Established);
    let (sender, receiver) = crossbeam_channel::unbounded::<u8>();
    drop(sender);
    let mut receiver = ChannelReceiver::new(receiver);
    assert!(matches!(receiver.receive(), Ok(ReceiveOutcome::Idle)));
    assert_eq!(receiver.status(), SessionStatus::Established);
    receiver.close();
    assert_eq!(receiver.receive().unwrap_err().kind(), ErrorKind::NotConnected);
}
