use std::collections::VecDeque;

use nbio::time::{Duration, SystemTime};
use nbio::util::{
    HeartbeatResult, HeartbeatingSession, LivenessSession, LivenessStrategy, ReadStatus, Session, WriteHeartbeat,
    WriteStatus,
};
use nbio::{Error, ErrorKind};

/// A session whose data is in queues.
struct QueueSession {
    connected: bool,
    active: bool,
    read_queue: VecDeque<Vec<usize>>,
    write_queue: VecDeque<Vec<usize>>,
}

impl QueueSession {
    fn new() -> Self {
        Self { connected: true, active: false, read_queue: VecDeque::new(), write_queue: VecDeque::new() }
    }
}

impl Session for QueueSession {
    type ReadData<'a> = Vec<usize>;
    type WriteData<'a> = &'a [usize];

    fn is_connected(&self) -> bool {
        self.connected
    }

    fn drive(&mut self) -> Result<bool, Error> {
        if !self.connected {
            return Err(Error::new(ErrorKind::NotConnected, "not connected"));
        }
        Ok(std::mem::take(&mut self.active))
    }

    fn write<'a>(&mut self, data: Self::WriteData<'a>) -> Result<WriteStatus<Self::WriteData<'a>>, Error> {
        if self.write_queue.len() == 8 {
            return Ok(WriteStatus::Pending(data));
        }
        self.write_queue.push_back(data.to_vec());
        Ok(WriteStatus::Success)
    }

    fn read<'a>(&'a mut self) -> Result<ReadStatus<Self::ReadData<'a>>, Error> {
        match self.read_queue.pop_front() {
            Some(data) => Ok(ReadStatus::Data(data)),
            None => Ok(ReadStatus::Idle),
        }
    }

    fn flush(&mut self) -> Result<(), Error> {
        Ok(())
    }
}

/// Writes sequence numbers.
struct Sequence {
    next: usize,
    result: HeartbeatResult,
}

impl WriteHeartbeat<QueueSession> for Sequence {
    fn write_heartbeat(&mut self, session: &mut QueueSession) -> Result<HeartbeatResult, Error> {
        session.write(&[self.next])?;
        self.next += 1;
        Ok(self.result)
    }
}

fn at(millis: u64) -> SystemTime {
    SystemTime::since_epoch(Duration::from_millis(millis))
}

/// Wait for that many milliseconds.
fn sleep(millis: u64) {
    let end = std::time::Instant::now() + std::time::Duration::from_millis(millis);
    while std::time::Instant::now() < end {
        std::hint::spin_loop();
    }
}

#[test]
fn util_test_heartbeat() {
    let mut sess = HeartbeatingSession::new(
        QueueSession::new(),
        Duration::from_millis(50),
        Sequence { next: 0, result: HeartbeatResult::Sent },
    );

    // drive for more than 3 intervals
    let end = std::time::Instant::now() + std::time::Duration::from_millis(151);
    while std::time::Instant::now() < end {
        sess.drive().unwrap();
        sleep(1);
    }
    sess.drive().unwrap();

    // assert at least 2 and at most 5 heartbeats received
    assert_eq!(0, *sess.session_mut().write_queue.pop_front().unwrap().get(0).unwrap());
    assert_eq!(1, *sess.session_mut().write_queue.pop_front().unwrap().get(0).unwrap());
    assert!(sess.session().write_queue.len() <= 3);
}

#[test]
fn util_test_liveness() {
    let mut sess =
        LivenessSession::new(QueueSession::new(), Duration::from_millis(50), LivenessStrategy::default());

    // send and drive for longer than interval
    let end = std::time::Instant::now() + std::time::Duration::from_millis(100);
    while std::time::Instant::now() < end {
        sess.session_mut().read_queue.push_back(vec![0]);
        sess.read().unwrap();
        sess.write(&[0]).unwrap();
        assert!(sess.session_mut().write_queue.pop_front().is_some());
        sess.drive().unwrap();
        sleep(1);
    }

    // assert drive does not report liveness error
    while sess.drive().unwrap() {}
    assert!(sess.drive().is_ok());

    // drive for longer than interval
    let end = std::time::Instant::now() + std::time::Duration::from_millis(100);
    while std::time::Instant::now() < end {
        sess.drive().ok();
        sleep(1);
    }

    // assert drive reports liveness error
    assert!(sess.drive().is_err());
}

#[test]
fn util_heartbeats_are_written_when_they_are_due() {
    let writer = Sequence { next: 0, result: HeartbeatResult::Sent };
    let mut sess = HeartbeatingSession::new_at(QueueSession::new(), Duration::from_millis(50), writer, at(0));
    assert!(!sess.drive_at(at(49)).unwrap());
    assert!(sess.session().write_queue.is_empty());
    assert!(sess.drive_at(at(60)).unwrap());
    assert_eq!(sess.session().write_queue, vec![vec![0]]);
    sess.drive_at(at(100)).unwrap();
    assert_eq!(sess.session().write_queue.len(), 1);
    assert!(sess.is_connected());
    assert!(matches!(sess.read(), Ok(ReadStatus::Idle)));
    sess.flush().unwrap();
}

#[test]
fn util_failed_heartbeat_is_written_again() {
    let writer = Sequence { next: 0, result: HeartbeatResult::Failed };
    let mut sess = HeartbeatingSession::new_at(QueueSession::new(), Duration::from_millis(50), writer, at(0));
    sess.drive_at(at(60)).unwrap();
    sess.drive_at(at(61)).unwrap();
    assert_eq!(sess.session().write_queue.len(), 2);
}

#[test]
fn util_liveness_is_reset_by_its_strategy_only() {
    let mut sess =
        LivenessSession::new_at(QueueSession::new(), Duration::from_millis(50), LivenessStrategy::default(), at(0));
    assert!(!sess.driven_at(false, at(50)).unwrap());
    assert_eq!(sess.driven_at(false, at(51)).unwrap_err().kind(), ErrorKind::TimedOut);
    assert!(sess.driven_at(true, at(60)).unwrap());
    assert!(!sess.driven_at(false, at(110)).unwrap());
    assert_eq!(sess.driven_at(false, at(111)).unwrap_err().message, "liveness check");
    let mut sess =
        LivenessSession::new_at(QueueSession::new(), Duration::from_millis(50), LivenessStrategy::new(), at(0));
    assert!(sess.driven_at(true, at(51)).is_err());
    sess.session_mut().connected = false;
    assert_eq!(sess.drive().unwrap_err().kind(), ErrorKind::NotConnected);
    assert!(!sess.is_connected());
}

#[test]
fn util_strategy_is_set_up() {
    let mut strategy = LivenessStrategy::new();
    assert!(!strategy.is_connect() && !strategy.is_drive() && !strategy.is_read() && !strategy.is_write());
    strategy.set_connect(true);
    strategy.set_read(true);
    assert!(strategy.is_connect() && !strategy.is_drive() && strategy.is_read() && !strategy.is_write());
    strategy.set_drive(true);
    strategy.set_write(true);
    let mut strategy = strategy.with_connect(false).with_read(false);
    assert!(!strategy.is_connect() && strategy.is_drive() && !strategy.is_read() && strategy.is_write());
    let mut strategy = LivenessStrategy::default().with_drive(false).with_write(false);
    assert!(strategy.is_connect() && !strategy.is_drive() && strategy.is_read() && !strategy.is_write());
}

#[test]
fn util_reading_and_writing_reset_liveness() {
    let strategy = LivenessStrategy::new().with_read(true).with_write(true);
    let mut sess = LivenessSession::new_at(QueueSession::new(), Duration::from_millis(50), strategy, at(0));
    sess.read_at(true, at(40));
    assert!(sess.driven_at(false, at(90)).is_ok());
    assert!(sess.driven_at(false, at(91)).is_err());
    sess.written_at(true, at(100));
    assert!(sess.driven_at(false, at(150)).is_ok());
    assert!(sess.driven_at(false, at(151)).is_err());
    sess.read_at(false, at(160));
    sess.written_at(false, at(160));
    assert!(sess.driven_at(false, at(160)).is_err());
}
