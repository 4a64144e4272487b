use nbio::liveness::{HeartbeatOutcome, HeartbeatingSession, LivenessSession, LivenessStrategy, WriteHeartbeat};
use nbio::mock::MockSession;
use nbio::time::{Duration, SystemTime};
use nbio::{DriveOutcome, Error, ErrorKind, Publish, Receive, ReceiveOutcome, Session, SessionStatus};

/// Publishes sequence numbers.
struct Sequence {
    next: usize,
    outcome: HeartbeatOutcome,
}

impl Sequence {
    fn new() -> Self {
        Self { next: 0, outcome: HeartbeatOutcome::Sent }
    }
}

impl<R: 'static> WriteHeartbeat<MockSession<R, Vec<usize>>> for Sequence {
    fn write_heartbeat(&mut self, session: &mut MockSession<R, Vec<usize>>) -> Result<HeartbeatOutcome, Error> {
        session.publish(vec![self.next])?;
        self.next += 1;
        Ok(self.outcome)
    }
}

/// A point in time that many milliseconds after the epoch.
fn at(millis: u64) -> SystemTime {
    SystemTime::since_epoch(Duration::from_millis(millis))
}

/// Wait for that many milliseconds.
fn sleep(millis: u64) {
    let end = std::time::Instant::now() + std::time::Duration::from_millis(millis);
    while std::time::Instant::now() < end {
        std::hint::spin_loop();
    }
}

#[test]
fn liveness_test_heartbeat() {
    let mut sess = HeartbeatingSession::new(
        MockSession::<&[usize], Vec<usize>>::new(),
        Duration::from_millis(50),
        Sequence::new(),
    );

    // drive for more than 3 intervals
    let end = std::time::Instant::now() + std::time::Duration::from_millis(151);
    while std::time::Instant::now() < end {
        sess.drive().unwrap();
        sleep(1);
    }
    sess.drive().unwrap();

    // assert at least 2 and at most 5 heartbeats received
    assert_eq!(0, *sess.session_mut().publish_queue.pop_front().unwrap().get(0).unwrap());
    assert_eq!(1, *sess.session_mut().publish_queue.pop_front().unwrap().get(0).unwrap());
    assert!(sess.session().publish_queue.len() <= 3);
}

#[test]
fn liveness_test_liveness() {
    let mut sess = LivenessSession::new(
        MockSession::<&[u8], &[u8]>::new(),
        Duration::from_millis(50),
        LivenessStrategy::default(),
    );

    // send and drive for longer than interval
    let end = std::time::Instant::now() + std::time::Duration::from_millis(100);
    while std::time::Instant::now() < end {
        sess.session_mut().receive_queue.push_back(&[0]);
        sess.receive().unwrap();
        sess.publish(&[0]).unwrap();
        assert!(sess.session_mut().publish_queue.pop_front().is_some());
        sess.drive().unwrap();
        sleep(1);
    }

    // assert drive does not report liveness error
    while sess.drive().unwrap() == DriveOutcome::Active {}
    assert!(sess.drive().is_ok());

    // drive for longer than interval
    let end = std::time::Instant::now() + std::time::Duration::from_millis(100);
    while std::time::Instant::now() < end {
        sess.drive().ok();
        sleep(1);
    }

    // assert drive reports liveness error
    assert!(sess.drive().is_err());
}

#[test]
fn heartbeats_are_written_when_they_are_due() {
    let mut sess =
        HeartbeatingSession::new_at(MockSession::<u8, Vec<usize>>::new(), Duration::from_millis(50), Sequence::new(), at(0));
    assert_eq!(sess.drive_at(at(49)).unwrap(), DriveOutcome::Idle);
    assert_eq!(sess.session().publish_queue.len(), 0);
    assert_eq!(sess.drive_at(at(60)).unwrap(), DriveOutcome::Active);
    assert_eq!(sess.session().publish_queue.len(), 1);
    sess.drive_at(at(61)).unwrap();
    assert_eq!(sess.session().publish_queue.len(), 1);
    sess.drive_at(at(200)).unwrap();
    assert_eq!(sess.session().publish_queue.len(), 2);
}

#[test]
fn failed_heartbeat_is_written_again() {
    let writer = Sequence { next: 0, outcome: HeartbeatOutcome::Failed };
    let mut sess =
        HeartbeatingSession::new_at(MockSession::<u8, Vec<usize>>::new(), Duration::from_millis(50), writer, at(0));
    sess.drive_at(at(60)).unwrap();
    sess.drive_at(at(61)).unwrap();
    assert_eq!(sess.session().publish_queue.len(), 2);
    // an error of the writer is passed on
    sess.session_mut().close();
    assert_eq!(sess.drive_at(at(62)).unwrap_err().kind(), ErrorKind::NotConnected);
    assert_eq!(sess.status(), SessionStatus::Terminated);
}

#[test]
fn heartbeating_session_passes_payloads_on() {
    let mut sess = HeartbeatingSession::new(MockSession::<u8, Vec<usize>>::new(), Duration::from_secs(60), Sequence::new());
    sess.session_mut().receive_queue.push_back(5);
    assert!(matches!(sess.receive(), Ok(ReceiveOutcome::Payload(5))));
    assert!(sess.publish(vec![7]).unwrap().is_published());
    assert_eq!(sess.session().publish_queue[0], vec![7]);
    sess.close();
    assert_eq!(sess.status(), SessionStatus::Terminated);
}

fn live(strategy: LivenessStrategy) -> LivenessSession<MockSession<u8, u8>> {
    LivenessSession::new_at(MockSession::new(), Duration::from_millis(50), strategy, at(0))
}

#[test]
fn elapsed_liveness_is_an_error() {
    let mut sess = live(LivenessStrategy::default());
    assert_eq!(sess.driven_at(DriveOutcome::Idle, at(50)).unwrap(), DriveOutcome::Idle);
    let err = sess.driven_at(DriveOutcome::Idle, at(51)).unwrap_err();
    assert_eq!(err.kind(), ErrorKind::TimedOut);
    assert_eq!(err.message, "liveness check");
    // driving resets liveness when it did work
    assert_eq!(sess.driven_at(DriveOutcome::Active, at(60)).unwrap(), DriveOutcome::Active);
    assert_eq!(sess.driven_at(DriveOutcome::Idle, at(110)).unwrap(), DriveOutcome::Idle);
    assert!(sess.driven_at(DriveOutcome::Idle, at(111)).is_err());
}

#[test]
fn receiving_and_publishing_reset_liveness() {
    let strategy = LivenessStrategy::new().with_receive(true).with_publish(true);
    let mut sess = live(strategy);
    sess.received_at(true, at(40));
    assert!(sess.driven_at(DriveOutcome::Idle, at(90)).is_ok());
    assert!(sess.driven_at(DriveOutcome::Idle, at(91)).is_err());
    sess.published_at(true, at(100));
    assert!(sess.driven_at(DriveOutcome::Idle, at(150)).is_ok());
    assert!(sess.driven_at(DriveOutcome::Idle, at(151)).is_err());
    sess.received_at(false, at(160));
    sess.published_at(false, at(160));
    assert!(sess.driven_at(DriveOutcome::Idle, at(160)).is_err());
    let mut sess = live(LivenessStrategy::new());
    sess.received_at(true, at(40));
    sess.published_at(true, at(40));
    assert!(sess.driven_at(DriveOutcome::Idle, at(51)).is_err());
    // before the epoch
    let before = SystemTime::before_epoch(Duration::from_millis(100));
    sess = LivenessSession::new_at(MockSession::new(), Duration::from_millis(50), strategy, before);
    assert!(sess.driven_at(DriveOutcome::Idle, SystemTime::before_epoch(Duration::from_millis(50))).is_ok());
    assert!(sess.driven_at(DriveOutcome::Idle, SystemTime::before_epoch(Duration::from_millis(49))).is_err());
}

#[test]
fn sent_heartbeats_are_queued_in_order() {
    let session = MockSession::<u8, Vec<usize>>::new();
    let mut sess = HeartbeatingSession::new_at(session, Duration::from_millis(50), Sequence::new(), at(0));
    for i in 0..40 {
        sess.drive_at(at(i * 10)).unwrap();
    }
    for i in 0..3 {
        assert_eq!(sess.session_mut().publish_queue.pop_front(), Some(vec![i]));
    }
    // popping does not change the schedule
    assert_eq!(sess.drive_at(at(399)).unwrap(), DriveOutcome::Idle);
    assert_eq!(sess.drive_at(at(400)).unwrap(), DriveOutcome::Active);
    assert_eq!(sess.session().publish_queue.back(), Some(&vec![7]));
}

#[test]
fn liveness_is_reset_by_its_strategy_only() {
    let mut sess = live(LivenessStrategy::new());
    assert_eq!(sess.driven_at(DriveOutcome::Active, at(50)).unwrap(), DriveOutcome::Active);
    assert_eq!(sess.driven_at(DriveOutcome::Active, at(51)).unwrap_err().kind(), ErrorKind::TimedOut);
    let mut sess = live(LivenessStrategy::new().with_receive(true));
    sess.publish(1).unwrap();
    assert!(sess.drive().is_err());
    assert!(matches!(sess.receive(), Ok(ReceiveOutcome::Idle)));
    assert!(sess.drive().is_err());
    sess.session_mut().receive_queue.push_back(1);
    sess.receive().unwrap();
    assert!(sess.drive().is_ok());
    let mut sess = live(LivenessStrategy::new().with_publish(true));
    sess.session_mut().receive_queue.push_back(1);
    sess.receive().unwrap();
    assert!(sess.drive().is_err());
    sess.publish(1).unwrap();
    assert!(sess.drive().is_ok());
    sess.close();
    assert_eq!(sess.drive().unwrap_err().kind(), ErrorKind::NotConnected);
    assert_eq!(sess.session().status(), SessionStatus::Terminated);
}

#[test]
fn strategy_is_set_up() {
    let mut strategy = LivenessStrategy::new();
    assert!(!strategy.is_drive() && !strategy.is_receive() && !strategy.is_publish());
    strategy.set_drive(true);
    assert!(strategy.is_drive() && !strategy.is_receive() && !strategy.is_publish());
    strategy.set_receive(true);
    strategy.set_publish(true);
    strategy.set_drive(false);
    assert!(!strategy.is_drive() && strategy.is_receive() && strategy.is_publish());
    let mut strategy = LivenessStrategy::default().with_drive(false);
    assert!(!strategy.is_drive() && strategy.is_receive() && strategy.is_publish());
}

#[test]
fn durations_are_in_nanoseconds() {
    let deadline = SystemTime::since_epoch(Duration::from_secs(1)).after(Duration::from_nanos(5));
    assert!(!deadline.is_reached(SystemTime::since_epoch(Duration::from_nanos(1_000_000_004))));
    assert!(deadline.is_reached(SystemTime::since_epoch(Duration::from_nanos(1_000_000_005))));
    assert!(!deadline.is_passed(SystemTime::since_epoch(Duration::from_nanos(1_000_000_005))));
    assert!(deadline.is_passed(SystemTime::since_epoch(Duration::from_millis(1_001))));
}
