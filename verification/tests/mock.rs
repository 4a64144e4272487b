use nbio::mock::MockSession;
use nbio::{
    DriveOutcome, Error, ErrorKind, Publish, PublishOutcome, Receive, ReceiveOutcome, Session, SessionStatus,
};

#[test]
fn test_mock_session() {
    let mut sess = MockSession::<&[u8], &[u8]>::new();

    // pop read result
    sess.receive_queue.push_back("hello, reader!".as_bytes());
    if let ReceiveOutcome::Payload(x) = sess.receive().unwrap() {
        assert_eq!(x, "hello, reader!".as_bytes());
    } else {
        panic!("Data");
    }

    // pop write result
    assert!(sess.publish(&[0, 1]).is_ok());
    assert!(sess.publish(&[2, 3]).is_ok());

    // pop user write
    assert_eq!(sess.publish_queue.pop_front().unwrap(), vec![0, 1]);
    assert_eq!(sess.publish_queue.pop_front().unwrap(), vec![2, 3]);
}

#[test]
fn mock_session_drives_from_its_queue() {
    let mut sess = MockSession::<u8, u8>::new();
    assert_eq!(sess.status(), SessionStatus::Established);
    assert_eq!(sess.drive().unwrap(), DriveOutcome::Idle);

    sess.drive_result_queue.push_back(Ok(DriveOutcome::Active));
    sess.drive_result_queue.push_back(Err(Error::new(ErrorKind::ConnectionReset, "gone")));
    assert_eq!(sess.drive().unwrap(), DriveOutcome::Active);
    let err = sess.drive().unwrap_err();
    assert_eq!(err.kind(), ErrorKind::ConnectionReset);
    assert_eq!(err.message, "gone");
    assert_eq!(sess.drive().unwrap(), DriveOutcome::Idle);
}

#[test]
fn mock_session_is_idle_without_payloads() {
    let mut sess = MockSession::<u8, u8>::new();
    assert!(matches!(sess.receive(), Ok(ReceiveOutcome::Idle)));
    sess.receive_queue.push_back(7);
    assert!(matches!(sess.receive(), Ok(ReceiveOutcome::Payload(7))));
    assert!(matches!(sess.receive(), Ok(ReceiveOutcome::Idle)));
}

#[test]
fn closed_mock_session_is_terminated() {
    let mut sess = MockSession::<u8, u8>::new();
    sess.receive_queue.push_back(7);
    sess.drive_result_queue.push_back(Ok(DriveOutcome::Active));
    sess.close();
    assert_eq!(sess.status(), SessionStatus::Terminated);
    assert_eq!(sess.drive().unwrap_err().kind(), ErrorKind::NotConnected);
    assert_eq!(sess.receive().unwrap_err().message, "not established");
    assert_eq!(sess.publish(1).unwrap_err().kind(), ErrorKind::NotConnected);
    assert_eq!(sess.publish_queue.len(), 0);
}

#[test]
fn outcomes_are_cloned() {
    assert!(PublishOutcome::<u8>::Published.clone().is_published());
    let incomplete = PublishOutcome::Incomplete(3u8);
    assert!(!incomplete.is_published());
    assert!(matches!(incomplete.clone(), PublishOutcome::Incomplete(3)));
    assert!(matches!(ReceiveOutcome::Payload(4u8).clone(), ReceiveOutcome::Payload(4)));
    let err = Error::new(ErrorKind::TimedOut, "late");
    assert_eq!(err.clone().message, "late");
}
