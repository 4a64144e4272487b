//! Utilities that use or encapsulate a [`Session`] that is read and written
use vstd::prelude::*;

use crate::error::{Error, ErrorKind};
use crate::time::{now, Deadline, Duration, SystemTime};

verus! {

/// Returned by the [`Session::read`] function.
#[derive(Debug)]
pub enum ReadStatus<T> {
    /// Data was read.
    Data(T),
    /// A part of the data was buffered.
    Buffered,
    /// No work was done.
    Idle,
}

/// Returned by the [`Session::write`] function.
#[derive(Debug)]
pub enum WriteStatus<T> {
    /// The write completed.
    Success,
    /// The write did not complete; what remains is to be retried.
    Pending(T),
}

/// A connection that is read and written.
///
/// Each operation that changes a session is described by a relation between the session before the call, the session
/// after it, and the result.
pub trait Session {
    /// The type returned by the `read(..)` function.
    type ReadData<'a> where Self: 'a;

    /// The type given to the `write(..)` function.
    type WriteData<'a> where Self: 'a;

    /// Whether the session is connected.
    open spec fn connected(&self) -> bool {
        arbitrary()
    }

    /// Whether [`Session::drive`] may lead from this session to `post` with the result `r`.
    open spec fn drives(&self, post: &Self, r: Result<bool, Error>) -> bool {
        true
    }

    /// Whether [`Session::write`] of `data` may lead from this session to `post` with the result `r`.
    open spec fn writes<'a>(
        &self,
        data: Self::WriteData<'a>,
        post: &Self,
        r: Result<WriteStatus<Self::WriteData<'a>>, Error>,
    ) -> bool {
        true
    }

    /// Whether [`Session::read`] may lead from this session to `post` with the result `r`.
    open spec fn reads<'a>(&self, post: &Self, r: Result<ReadStatus<Self::ReadData<'a>>, Error>) -> bool {
        true
    }

    /// Whether [`Session::flush`] may lead from this session to `post` with the result `r`.
    open spec fn flushes(&self, post: &Self, r: Result<(), Error>) -> bool {
        true
    }

    /// Check whether the session is connected.
    fn is_connected(&self) -> (r: bool)
        ensures
            r == self.connected(),
    ;

    /// Drive the session, returning whether work was done.
    fn drive(&mut self) -> (r: Result<bool, Error>)
        ensures
            old(self).drives(final(self), r),
    ;

    /// Write the given data to the session.
    fn write<'a>(&mut self, data: Self::WriteData<'a>) -> (r: Result<
        WriteStatus<Self::WriteData<'a>>,
        Error,
    >)
        ensures
            old(self).writes(data, final(self), r),
    ;

    /// Attempt to read data from the session.
    fn read<'a>(&'a mut self) -> (r: Result<ReadStatus<Self::ReadData<'a>>, Error>)
        ensures
            old(self).reads(final(self), r),
    ;

    /// Flush all pending data, blocking until completion.
    fn flush(&mut self) -> (r: Result<(), Error>)
        ensures
            old(self).flushes(final(self), r),
    ;
}

/// Used by a [`HeartbeatingSession`] to indicate if a heartbeat was sent, skipped, or failed.
///
/// When a heartbeat was `Sent` or `Skipped`, the [`HeartbeatingSession`] will schedule the next heartbeat.
/// When a heartbeat `Failed`, the [`HeartbeatingSession`] will re-attempt the heartbeat on the next call to `drive`.
#[derive(Debug, Clone, Copy)]
pub enum HeartbeatResult {
    Sent,
    Skipped,
    Failed,
}

/// Writes heartbeats to a session of type `S`.
pub trait WriteHeartbeat<S> {
    /// Whether writing a heartbeat may lead to `post` and `post_session` with the result `r`.
    open spec fn writes(
        &self,
        session: &S,
        post: &Self,
        post_session: &S,
        r: Result<HeartbeatResult, Error>,
    ) -> bool {
        true
    }

    /// Attempt to write a heartbeat directly to the session.
    fn write_heartbeat(&mut self, session: &mut S) -> (r: Result<HeartbeatResult, Error>)
        ensures
            old(self).writes(old(session), final(self), final(session), r),
    ;
}

/// Encapsulates an underlying [`Session`], writing a user-defined "heartbeat" message as a given interval.
///
/// Heartbeats are produced by a user-defined [`WriteHeartbeat`], allowing the user to populate a heartbeat with sequences,
/// timestamps, etc. Heartbeat messages are written on calls to [`Session::drive`] using an internal timestamp to schedule
/// when to send heartbeats.
pub struct HeartbeatingSession<S, F> {
    session: S,
    interval: Duration,
    heartbeat_writer: F,
    next_heartbeat: Deadline,
}

impl<S, F> HeartbeatingSession<S, F> {
    /// The underlying session.
    pub closed spec fn inner(&self) -> S {
        self.session
    }

    /// What writes heartbeats.
    pub closed spec fn writer(&self) -> F {
        self.heartbeat_writer
    }

    /// The nanoseconds between heartbeats.
    pub closed spec fn interval(&self) -> nat {
        self.interval@
    }

    /// When the next heartbeat is due.
    pub closed spec fn next(&self) -> int {
        self.next_heartbeat@
    }

    /// Whether everything but the underlying session is the same.
    pub open spec fn same_schedule(&self, other: &Self) -> bool {
        &&& self.writer() == other.writer()
        &&& self.interval() == other.interval()
        &&& self.next() == other.next()
    }
}

impl<S, F> HeartbeatingSession<S, F> where S: Session + 'static, F: WriteHeartbeat<S> + 'static {
    /// Create a new `HeartbeatingSession`, using the given [`Session`], `interval`, and `heartbeat_writer`.
    pub fn new(session: S, interval: Duration, heartbeat_writer: F) -> (r: Self)
        ensures
            r.inner() == session,
            r.writer() == heartbeat_writer,
            r.interval() == interval@,
            exists|now: SystemTime| #[trigger]
                crate::time::is_clock_reading(now) && r.next() == now@ + interval@,
    {
        Self::new_at(session, interval, heartbeat_writer, now())
    }

    /// Create a new `HeartbeatingSession` whose first heartbeat is due one interval after the given time.
    pub fn new_at(session: S, interval: Duration, heartbeat_writer: F, now: SystemTime) -> (r: Self)
        ensures
            r.inner() == session,
            r.writer() == heartbeat_writer,
            r.interval() == interval@,
            r.next() == now@ + interval@,
    {
        Self { session, interval, heartbeat_writer, next_heartbeat: now.after(interval) }
    }

    /// Get the underlying session
    pub fn session<'a>(&'a mut self) -> (r: &'a S)
        ensures
            *r == old(self).inner(),
            *final(self) == *old(self),
    {
        &self.session
    }

    /// Get the mutable underlying session
    pub fn session_mut<'a>(&'a mut self) -> (r: &'a mut S)
        ensures
            *r == old(self).inner(),
            final(self).inner() == *final(r),
            final(self).same_schedule(old(self)),
    {
        &mut self.session
    }

    /// Whether driving at that time may lead to `post` with the result `r`. When no heartbeat is due, the underlying
    /// session is driven. When one is due, it is written first; unless that failed, the next one is scheduled one interval
    /// later.
    pub open spec fn drives_at(&self, now: int, post: &Self, r: Result<bool, Error>) -> bool {
        &&& post.interval() == self.interval()
        &&& if now < self.next() {
            &&& post.same_schedule(self)
            &&& self.inner().drives(&post.inner(), r)
        } else {
            exists|mid: S, h: Result<HeartbeatResult, Error>| #[trigger]
                self.writer().writes(&self.inner(), &post.writer(), &mid, h) && match h {
                    Err(e) => {
                        &&& r == Err::<bool, Error>(e)
                        &&& post.inner() == mid
                        &&& post.next() == self.next()
                    },
                    Ok(HeartbeatResult::Failed) => {
                        &&& mid.drives(&post.inner(), r)
                        &&& post.next() == self.next()
                    },
                    Ok(_) => {
                        &&& post.next() == now + self.interval()
                        &&& exists|d: Result<bool, Error>| #[trigger]
                            mid.drives(&post.inner(), d) && r == match d {
                                Ok(_) => Ok(true),
                                Err(e) => Err(e),
                            }
                    },
                }
        }
    }

    /// Write a heartbeat if one is due at that time, and drive the underlying session.
    pub fn drive_at(&mut self, now: SystemTime) -> (r: Result<bool, Error>)
        ensures
            old(self).drives_at(now@, final(self), r),
    {
        if self.next_heartbeat.is_reached(now) {
            let written = self.heartbeat_writer.write_heartbeat(&mut self.session);
            let ghost mid = self.inner();
            assert(old(self).writer().writes(&old(self).inner(), &self.writer(), &mid, written));
            let failed = match written? {
                HeartbeatResult::Failed => true,
                _ => false,
            };
            if !failed {
                self.next_heartbeat = now.after(self.interval);
                let driven = self.session.drive();
                assert(old(self).writer().writes(&old(self).inner(), &self.writer(), &mid, written));
                assert(mid.drives(&self.inner(), driven));
                driven?;
                return Ok(true);
            }
            let r = self.session.drive();
            assert(old(self).writer().writes(&old(self).inner(), &self.writer(), &mid, written));
            return r;
        }
        self.session.drive()
    }
}

impl<S, F> Session for HeartbeatingSession<S, F> where S: Session + 'static, F: WriteHeartbeat<S> + 'static {
    type ReadData<'a> = S::ReadData<'a>;

    type WriteData<'a> = S::WriteData<'a>;

    open spec fn connected(&self) -> bool {
        self.inner().connected()
    }

    open spec fn drives(&self, post: &Self, r: Result<bool, Error>) -> bool {
        exists|now: SystemTime| #[trigger]
            crate::time::is_clock_reading(now) && self.drives_at(now@, post, r)
    }

    open spec fn writes<'a>(
        &self,
        data: Self::WriteData<'a>,
        post: &Self,
        r: Result<WriteStatus<Self::WriteData<'a>>, Error>,
    ) -> bool {
        self.inner().writes(data, &post.inner(), r) && post.same_schedule(self)
    }

    open spec fn reads<'a>(&self, post: &Self, r: Result<ReadStatus<Self::ReadData<'a>>, Error>) -> bool {
        self.inner().reads(&post.inner(), r) && post.same_schedule(self)
    }

    open spec fn flushes(&self, post: &Self, r: Result<(), Error>) -> bool {
        self.inner().flushes(&post.inner(), r) && post.same_schedule(self)
    }

    fn is_connected(&self) -> bool {
        self.session.is_connected()
    }

    fn drive(&mut self) -> Result<bool, Error> {
        self.drive_at(now())
    }

    fn write<'a>(&mut self, data: Self::WriteData<'a>) -> Result<
        WriteStatus<Self::WriteData<'a>>,
        Error,
    > {
        self.session.write(data)
    }

    fn read<'a>(&'a mut self) -> Result<ReadStatus<Self::ReadData<'a>>, Error> {
        self.session.read()
    }

    fn flush(&mut self) -> Result<(), Error> {
        self.session.flush()
    }
}

/// Encapsulates an underlying [`Session`], returning an error when a liveness check fails.
///
/// A liveness timestamp is tracked internally and is reset based on the given [`LivenessStrategy`].
///
/// When the configured duration elapses without liveness being reset, the `drive` function will return an `Err` or
/// [`ErrorKind::TimedOut`].
pub struct LivenessSession<S> {
    session: S,
    check: LivenessCheck,
}

/// When liveness ends, and what resets it.
struct LivenessCheck {
    timeout: Duration,
    strategy: LivenessStrategy,
    liveness: Deadline,
}

impl LivenessCheck {
    /// Whether `post` has the same setup, with liveness reset at that time if it is to be reset.
    spec fn resets(&self, reset: bool, now: int, post: &Self) -> bool {
        &&& post.timeout == self.timeout
        &&& post.strategy == self.strategy
        &&& post.liveness@ == if reset {
            now + self.timeout@
        } else {
            self.liveness@
        }
    }

    /// Reading ended at that time, and gave something or not.
    fn read_at(&mut self, read: bool, now: SystemTime)
        ensures
            old(self).resets(read && old(self).strategy.resets_on_read(), now@, final(self)),
    {
        if read && self.strategy.read {
            self.liveness = now.after(self.timeout);
        }
    }

    /// Writing ended at that time, and completed or not.
    fn written_at(&mut self, written: bool, now: SystemTime)
        ensures
            old(self).resets(written && old(self).strategy.resets_on_write(), now@, final(self)),
    {
        if written && self.strategy.write {
            self.liveness = now.after(self.timeout);
        }
    }
}

impl<S> LivenessSession<S> {
    /// The underlying session.
    pub closed spec fn inner(&self) -> S {
        self.session
    }

    /// The nanoseconds after which liveness ends that was not reset.
    pub closed spec fn timeout(&self) -> nat {
        self.check.timeout@
    }

    /// What resets liveness.
    pub closed spec fn strategy(&self) -> LivenessStrategy {
        self.check.strategy
    }

    /// When liveness ends.
    pub closed spec fn liveness(&self) -> int {
        self.check.liveness@
    }

    /// Whether `post` has the same setup, with liveness reset at that time if it is to be reset.
    pub open spec fn resets(&self, reset: bool, now: int, post: &Self) -> bool {
        &&& post.timeout() == self.timeout()
        &&& post.strategy() == self.strategy()
        &&& post.liveness() == if reset {
            now + self.timeout()
        } else {
            self.liveness()
        }
    }

    /// Whether `post` has the same setup, with liveness reset if it is to be reset: it then ends one timeout after what the
    /// clock of the system reads.
    pub open spec fn may_reset(&self, reset: bool, post: &Self) -> bool {
        if reset {
            exists|now: SystemTime| #[trigger]
                crate::time::is_clock_reading(now) && self.resets(true, now@, post)
        } else {
            self.resets(false, 0, post)
        }
    }

    /// What is reported of a drive of the underlying session that ended at that time with the result `o`.
    pub open spec fn reports(&self, o: bool, now: int, r: Result<bool, Error>) -> bool {
        if now > self.liveness() && !self.is_reset_by(o) {
            crate::error::fails(r, ErrorKind::TimedOut, "liveness check"@)
        } else {
            r == Ok::<bool, Error>(o)
        }
    }

    /// Whether a drive of the underlying session with the result `o` resets liveness.
    pub open spec fn is_reset_by(&self, o: bool) -> bool {
        o && self.strategy().resets_on_drive()
    }

    /// Whether a drive of the underlying session that ended at that time with the result `d` may lead to `post` with the
    /// result `r`.
    pub open spec fn reacts(
        &self,
        d: Result<bool, Error>,
        now: int,
        post: &Self,
        r: Result<bool, Error>,
    ) -> bool {
        match d {
            Err(e) => r == d && self.resets(false, now, post),
            Ok(o) => self.reports(o, now, r) && self.resets(
                self.is_reset_by(o),
                now,
                post,
            ),
        }
    }
}

impl<S> LivenessSession<S> where S: Session + 'static {
    /// Create a new `LivenessSession`, using the given [`Session`], [`LivenessStrategy`], and `timeout`.
    pub fn new(session: S, timeout: Duration, strategy: LivenessStrategy) -> (r: Self)
        ensures
            r.inner() == session,
            r.timeout() == timeout@,
            r.strategy() == strategy,
            exists|now: SystemTime| #[trigger]
                crate::time::is_clock_reading(now) && r.liveness() == now@ + timeout@,
    {
        Self::new_at(session, timeout, strategy, now())
    }

    /// Create a new `LivenessSession` whose liveness was reset at the given time.
    pub fn new_at(session: S, timeout: Duration, strategy: LivenessStrategy, now: SystemTime) -> (r: Self)
        ensures
            r.inner() == session,
            r.timeout() == timeout@,
            r.strategy() == strategy,
            r.liveness() == now@ + timeout@,
    {
        Self { session, check: LivenessCheck { timeout, strategy, liveness: now.after(timeout) } }
    }

    /// Get the underlying session
    pub fn session<'a>(&'a mut self) -> (r: &'a S)
        ensures
            *r == old(self).inner(),
            *final(self) == *old(self),
    {
        &self.session
    }

    /// Get the mutable underlying session
    pub fn session_mut<'a>(&'a mut self) -> (r: &'a mut S)
        ensures
            *r == old(self).inner(),
            final(self).inner() == *final(r),
            old(self).resets(false, 0, final(self)),
    {
        &mut self.session
    }

    /// Reading from the underlying session ended at that time, and gave something or not.
    pub fn read_at(&mut self, read: bool, now: SystemTime)
        ensures
            final(self).inner() == old(self).inner(),
            old(self).resets(read && old(self).strategy().resets_on_read(), now@, final(self)),
    {
        self.check.read_at(read, now)
    }

    /// Writing to the underlying session ended at that time, and completed or not.
    pub fn written_at(&mut self, written: bool, now: SystemTime)
        ensures
            final(self).inner() == old(self).inner(),
            old(self).resets(written && old(self).strategy().resets_on_write(), now@, final(self)),
    {
        self.check.written_at(written, now)
    }

    /// The underlying session was driven, and reported at that time whether work was done.
    pub fn driven_at(&mut self, active: bool, now: SystemTime) -> (r: Result<bool, Error>)
        ensures
            final(self).inner() == old(self).inner(),
            old(self).resets(old(self).is_reset_by(active), now@, final(self)),
            old(self).reports(active, now@, r),
    {
        if self.check.strategy.drive && active {
            self.check.liveness = now.after(self.check.timeout);
            Ok(true)
        } else if self.check.liveness.is_passed(now) {
            Err(Error::new(ErrorKind::TimedOut, "liveness check"))
        } else {
            Ok(active)
        }
    }
}

/// A drive after the end of liveness, which does not reset it, fails.
pub proof fn elapsed_liveness_is_reported<S>(
    before: LivenessSession<S>,
    o: bool,
    now: int,
    post: LivenessSession<S>,
    r: Result<bool, Error>,
)
    requires
        before.reacts(Ok(o), now, &post, r),
        now > before.liveness(),
        !before.is_reset_by(o),
    ensures
        crate::error::fails(r, ErrorKind::TimedOut, "liveness check"@),
        post.liveness() == before.liveness(),
{
}

/// Whether reading gave data, or a part of it.
pub open spec fn is_read<T>(r: Result<ReadStatus<T>, Error>) -> bool {
    r matches Ok(status) && (status is Data || status is Buffered)
}

/// Whether writing completed.
pub open spec fn is_written<T>(r: Result<WriteStatus<T>, Error>) -> bool {
    r matches Ok(status) && status is Success
}

impl<S> Session for LivenessSession<S> where S: Session + 'static {
    type ReadData<'a> = S::ReadData<'a>;

    type WriteData<'a> = S::WriteData<'a>;

    open spec fn connected(&self) -> bool {
        self.inner().connected()
    }

    open spec fn drives(&self, post: &Self, r: Result<bool, Error>) -> bool {
        exists|d: Result<bool, Error>| #[trigger]
            self.inner().drives(&post.inner(), d) && match d {
                Err(_) => self.reacts(d, 0, post, r),
                Ok(_) => exists|now: SystemTime| #[trigger]
                    crate::time::is_clock_reading(now) && self.reacts(d, now@, post, r),
            }
    }

    open spec fn writes<'a>(
        &self,
        data: Self::WriteData<'a>,
        post: &Self,
        r: Result<WriteStatus<Self::WriteData<'a>>, Error>,
    ) -> bool {
        &&& self.inner().writes(data, &post.inner(), r)
        &&& self.may_reset(is_written(r) && self.strategy().resets_on_write(), post)
    }

    open spec fn reads<'a>(&self, post: &Self, r: Result<ReadStatus<Self::ReadData<'a>>, Error>) -> bool {
        &&& self.inner().reads(&post.inner(), r)
        &&& self.may_reset(is_read(r) && self.strategy().resets_on_read(), post)
    }

    open spec fn flushes(&self, post: &Self, r: Result<(), Error>) -> bool {
        self.inner().flushes(&post.inner(), r) && self.resets(false, 0, post)
    }

    fn is_connected(&self) -> bool {
        self.session.is_connected()
    }

    fn drive(&mut self) -> Result<bool, Error> {
        let driven = self.session.drive();
        assert(old(self).inner().drives(&self.inner(), driven));
        assert(old(self).reacts(driven, 0, self, driven) || driven is Ok);
        let active = driven?;
        let now = now();
        let r = self.driven_at(active, now);
        assert(old(self).inner().drives(&self.inner(), Ok(active)));
        assert(old(self).reacts(Ok(active), now@, self, r));
        r
    }

    fn write<'a>(&mut self, data: Self::WriteData<'a>) -> Result<
        WriteStatus<Self::WriteData<'a>>,
        Error,
    > {
        let r = self.session.write(data)?;
        let written = match &r {
            WriteStatus::Success => true,
            WriteStatus::Pending(_) => false,
        };
        self.check.written_at(written, now());
        Ok(r)
    }

    fn read<'a>(&'a mut self) -> Result<ReadStatus<Self::ReadData<'a>>, Error> {
        let r = self.session.read()?;
        let read = match &r {
            ReadStatus::Data(_) => true,
            ReadStatus::Buffered => true,
            ReadStatus::Idle => false,
        };
        self.check.read_at(read, now());
        Ok(r)
    }

    fn flush(&mut self) -> Result<(), Error> {
        self.session.flush()
    }
}

/// Used by [`LivenessSession`] to determine when to reset the `liveness` timestamp.
///
/// Checks:
/// - `read`: resets when a call to `read` results in [`ReadStatus::Data`] or [`ReadStatus::Buffered`]
/// - `write`: resets when a call to `write` results in [`WriteStatus::Success`]
/// - `drive`: resets when a call to `drive` results in `true`
/// - `connect`: resets when connecting succeeds
///
/// The [`Default`] impl enables all liveness checks, whereas `new()` will disable all liveness checks.
///
/// A builder pattern is provided to enable a combination of checks with one line of code:
/// ```no_run
/// use nbio::util::LivenessStrategy;
/// let strat = LivenessStrategy::new().with_read(true).with_write(true);
/// ```
#[derive(Debug, Clone, Copy)]
pub struct LivenessStrategy {
    connect: bool,
    drive: bool,
    read: bool,
    write: bool,
}

impl LivenessStrategy {
    /// Whether connecting resets liveness.
    pub closed spec fn resets_on_connect(&self) -> bool {
        self.connect
    }

    /// Whether driving resets liveness.
    pub closed spec fn resets_on_drive(&self) -> bool {
        self.drive
    }

    /// Whether reading resets liveness.
    pub closed spec fn resets_on_read(&self) -> bool {
        self.read
    }

    /// Whether writing resets liveness.
    pub closed spec fn resets_on_write(&self) -> bool {
        self.write
    }

    /// Whether these are the checks that are enabled.
    pub open spec fn has(&self, connect: bool, drive: bool, read: bool, write: bool) -> bool {
        &&& self.resets_on_connect() == connect
        &&& self.resets_on_drive() == drive
        &&& self.resets_on_read() == read
        &&& self.resets_on_write() == write
    }

    pub fn new() -> (r: Self)
        ensures
            r.has(false, false, false, false),
    {
        Self { connect: false, drive: false, read: false, write: false }
    }

    pub fn is_connect(&mut self) -> (r: bool)
        ensures
            r == old(self).resets_on_connect(),
            *final(self) == *old(self),
    {
        self.connect
    }

    pub fn is_drive(&mut self) -> (r: bool)
        ensures
            r == old(self).resets_on_drive(),
            *final(self) == *old(self),
    {
        self.drive
    }

    pub fn is_read(&mut self) -> (r: bool)
        ensures
            r == old(self).resets_on_read(),
            *final(self) == *old(self),
    {
        self.read
    }

    pub fn is_write(&mut self) -> (r: bool)
        ensures
            r == old(self).resets_on_write(),
            *final(self) == *old(self),
    {
        self.write
    }

    pub fn set_connect(&mut self, connect: bool)
        ensures
            final(self).has(
                connect,
                old(self).resets_on_drive(),
                old(self).resets_on_read(),
                old(self).resets_on_write(),
            ),
    {
        self.connect = connect;
    }

    pub fn set_drive(&mut self, drive: bool)
        ensures
            final(self).has(
                old(self).resets_on_connect(),
                drive,
                old(self).resets_on_read(),
                old(self).resets_on_write(),
            ),
    {
        self.drive = drive;
    }

    pub fn set_read(&mut self, read: bool)
        ensures
            final(self).has(
                old(self).resets_on_connect(),
                old(self).resets_on_drive(),
                read,
                old(self).resets_on_write(),
            ),
    {
        self.read = read;
    }

    pub fn set_write(&mut self, write: bool)
        ensures
            final(self).has(
                old(self).resets_on_connect(),
                old(self).resets_on_drive(),
                old(self).resets_on_read(),
                write,
            ),
    {
        self.write = write;
    }

    pub fn with_connect(self, connect: bool) -> (r: Self)
        ensures
            r.has(
                connect,
                self.resets_on_drive(),
                self.resets_on_read(),
                self.resets_on_write(),
            ),
    {
        Self { connect, ..self }
    }

    pub fn with_drive(self, drive: bool) -> (r: Self)
        ensures
            r.has(
                self.resets_on_connect(),
                drive,
                self.resets_on_read(),
                self.resets_on_write(),
            ),
    {
        Self { drive, ..self }
    }

    pub fn with_read(self, read: bool) -> (r: Self)
        ensures
            r.has(
                self.resets_on_connect(),
                self.resets_on_drive(),
                read,
                self.resets_on_write(),
            ),
    {
        Self { read, ..self }
    }

    pub fn with_write(self, write: bool) -> (r: Self)
        ensures
            r.has(
                self.resets_on_connect(),
                self.resets_on_drive(),
                self.resets_on_read(),
                write,
            ),
    {
        Self { write, ..self }
    }
}

impl Default for LivenessStrategy {
    fn default() -> (r: Self)
        ensures
            r.has(true, true, true, true),
    {
        Self { connect: true, drive: true, read: true, write: true }
    }
}

/// A heartbeat is written when one is due and not before, and the underlying session is driven behind it. One that was sent
/// or skipped counts as work, and the next one is due one interval later. One that failed stays due, and the drive reports
/// what the underlying session reports. An error of the writer is reported, and the session is not driven.
pub proof fn due_heartbeat_is_written<S, F>(
    pre: HeartbeatingSession<S, F>,
    now: int,
    post: HeartbeatingSession<S, F>,
    r: Result<bool, Error>,
) where S: Session + 'static, F: WriteHeartbeat<S> + 'static
    requires
        pre.drives_at(now, &post, r),
    ensures
        post.interval() == pre.interval(),
        now < pre.next() ==> {
            &&& pre.inner().drives(&post.inner(), r)
            &&& post.writer() == pre.writer()
            &&& post.next() == pre.next()
        },
        now >= pre.next() ==> exists|mid: S, h: Result<HeartbeatResult, Error>|
            {
                &&& #[trigger] pre.writer().writes(&pre.inner(), &post.writer(), &mid, h)
                &&& h matches Err(e) ==> r == Err::<bool, Error>(e) && post.inner() == mid && post.next() == pre.next()
                &&& h matches Ok(HeartbeatResult::Failed) ==> mid.drives(&post.inner(), r) && post.next() == pre.next()
                &&& (h matches Ok(outcome) && !(outcome is Failed)) ==> {
                    &&& post.next() == now + pre.interval()
                    &&& r is Ok ==> r == Ok::<bool, Error>(true)
                    &&& exists|d: Result<bool, Error>| #[trigger]
                        mid.drives(&post.inner(), d) && (d is Ok <==> r is Ok)
                }
            },
{
    if now >= pre.next() {
        let (mid, h) = choose|mid: S, h: Result<HeartbeatResult, Error>| #[trigger]
            pre.writer().writes(&pre.inner(), &post.writer(), &mid, h) && match h {
                Err(e) => {
                    &&& r == Err::<bool, Error>(e)
                    &&& post.inner() == mid
                    &&& post.next() == pre.next()
                },
                Ok(HeartbeatResult::Failed) => {
                    &&& mid.drives(&post.inner(), r)
                    &&& post.next() == pre.next()
                },
                Ok(_) => {
                    &&& post.next() == now + pre.interval()
                    &&& exists|d: Result<bool, Error>| #[trigger]
                        mid.drives(&post.inner(), d) && r == match d {
                            Ok(_) => Ok(true),
                            Err(e) => Err(e),
                        }
                },
            };
        assert(pre.writer().writes(&pre.inner(), &post.writer(), &mid, h));
        if h is Ok && !(h->Ok_0 is Failed) {
            let d = choose|d: Result<bool, Error>| #[trigger]
                mid.drives(&post.inner(), d) && r == match d {
                    Ok(_) => Ok(true),
                    Err(e) => Err(e),
                };
            assert(mid.drives(&post.inner(), d));
        }
    }
}

/// A drive that did work resets liveness, if driving does, and reports the work. Any other drive keeps it: it reports what
/// the underlying session reports until liveness has ended, and from then on that it timed out. A drive that failed is
/// reported as it is.
pub proof fn drive_checks_liveness<S>(
    pre: LivenessSession<S>,
    d: Result<bool, Error>,
    now: int,
    post: LivenessSession<S>,
    r: Result<bool, Error>,
)
    requires
        pre.reacts(d, now, &post, r),
    ensures
        post.timeout() == pre.timeout(),
        post.strategy() == pre.strategy(),
        d == Ok::<bool, Error>(true) && pre.strategy().resets_on_drive() ==> r == d && post.liveness() == now + pre.timeout(),
        !(d == Ok::<bool, Error>(true) && pre.strategy().resets_on_drive()) ==> {
            &&& post.liveness() == pre.liveness()
            &&& d is Err || now <= pre.liveness() ==> r == d
            &&& d is Ok && now > pre.liveness() ==> crate::error::fails(r, ErrorKind::TimedOut, "liveness check"@)
        },
{
}

/// Liveness that is reset ends one timeout after the time of the clock, and otherwise when it did. The setup stays the same.
proof fn lemma_may_reset<S>(pre: LivenessSession<S>, reset: bool, post: LivenessSession<S>)
    requires
        pre.may_reset(reset, &post),
    ensures
        post.timeout() == pre.timeout(),
        post.strategy() == pre.strategy(),
        !reset ==> post.liveness() == pre.liveness(),
        reset ==> exists|now: SystemTime| #[trigger]
            crate::time::is_clock_reading(now) && post.liveness() == now@ + pre.timeout(),
{
    if reset {
        let now = choose|now: SystemTime| #[trigger]
            crate::time::is_clock_reading(now) && pre.resets(true, now@, &post);
        assert(crate::time::is_clock_reading(now));
    }
}

/// Reading gives what the underlying session gives. Data or a part of it resets liveness, if reading does: it then ends one
/// timeout after the time of the clock. Nothing else does.
pub proof fn reading_resets_liveness<'a, S>(
    pre: LivenessSession<S>,
    post: LivenessSession<S>,
    r: Result<ReadStatus<S::ReadData<'a>>, Error>,
) where S: Session + 'static
    requires
        pre.reads(&post, r),
    ensures
        pre.inner().reads(&post.inner(), r),
        post.timeout() == pre.timeout(),
        post.strategy() == pre.strategy(),
        pre.strategy().resets_on_read() && (r matches Ok(status) && !(status is Idle)) ==> exists|now: SystemTime|
            #[trigger] crate::time::is_clock_reading(now) && post.liveness() == now@ + pre.timeout(),
        !pre.strategy().resets_on_read() || r is Err || r->Ok_0 is Idle ==> post.liveness() == pre.liveness(),
{
    lemma_may_reset(pre, is_read(r) && pre.strategy().resets_on_read(), post);
}

/// Writing does what the underlying session does. A write that completed resets liveness, if writing does: it then ends one
/// timeout after the time of the clock. Nothing else does.
pub proof fn writing_resets_liveness<'a, S>(
    pre: LivenessSession<S>,
    data: S::WriteData<'a>,
    post: LivenessSession<S>,
    r: Result<WriteStatus<S::WriteData<'a>>, Error>,
) where S: Session + 'static
    requires
        pre.writes(data, &post, r),
    ensures
        pre.inner().writes(data, &post.inner(), r),
        post.timeout() == pre.timeout(),
        post.strategy() == pre.strategy(),
        pre.strategy().resets_on_write() && (r matches Ok(status) && status is Success) ==> exists|now: SystemTime|
            #[trigger] crate::time::is_clock_reading(now) && post.liveness() == now@ + pre.timeout(),
        !pre.strategy().resets_on_write() || r is Err || r->Ok_0 is Pending ==> post.liveness() == pre.liveness(),
{
    lemma_may_reset(pre, is_written(r) && pre.strategy().resets_on_write(), post);
}

/// A drive of a session is a drive of the underlying one, which is then checked at the time of the clock.
pub proof fn driving_drives_underlying_session<S>(
    pre: LivenessSession<S>,
    post: LivenessSession<S>,
    r: Result<bool, Error>,
) where S: Session + 'static
    requires
        pre.drives(&post, r),
    ensures
        exists|d: Result<bool, Error>| #[trigger] pre.inner().drives(&post.inner(), d) && (r is Ok ==> r == d) && (d is Err
            ==> r == d),
        r is Ok && !(r->Ok_0 && pre.strategy().resets_on_drive()) ==> exists|now: SystemTime| #[trigger]
            crate::time::is_clock_reading(now) && now@ <= pre.liveness() && post.liveness() == pre.liveness(),
{
    let d = choose|d: Result<bool, Error>| #[trigger]
        pre.inner().drives(&post.inner(), d) && match d {
            Err(_) => pre.reacts(d, 0, &post, r),
            Ok(_) => exists|now: SystemTime| #[trigger]
                crate::time::is_clock_reading(now) && pre.reacts(d, now@, &post, r),
        };
    if d is Ok {
        let now = choose|now: SystemTime| #[trigger]
            crate::time::is_clock_reading(now) && pre.reacts(d, now@, &post, r);
        drive_checks_liveness(pre, d, now@, post, r);
        assert(crate::time::is_clock_reading(now));
    } else {
        drive_checks_liveness(pre, d, 0, post, r);
    }
    assert(pre.inner().drives(&post.inner(), d));
}

/// Heartbeats change nothing of what is written and read, nor do writing, reading and flushing change when the next
/// heartbeat is due.
pub proof fn heartbeats_are_apart_from_data<'a, S, F>(
    pre: HeartbeatingSession<S, F>,
    data: S::WriteData<'a>,
    written: HeartbeatingSession<S, F>,
    w: Result<WriteStatus<S::WriteData<'a>>, Error>,
    read: HeartbeatingSession<S, F>,
    x: Result<ReadStatus<S::ReadData<'a>>, Error>,
    flushed: HeartbeatingSession<S, F>,
    f: Result<(), Error>,
) where S: Session + 'static, F: WriteHeartbeat<S> + 'static
    requires
        pre.writes(data, &written, w),
        pre.reads(&read, x),
        pre.flushes(&flushed, f),
    ensures
        pre.inner().writes(data, &written.inner(), w),
        pre.inner().reads(&read.inner(), x),
        pre.inner().flushes(&flushed.inner(), f),
        pre.connected() == pre.inner().connected(),
        written.next() == pre.next() && written.interval() == pre.interval() && written.writer() == pre.writer(),
        read.next() == pre.next() && read.interval() == pre.interval() && read.writer() == pre.writer(),
        flushed.next() == pre.next() && flushed.interval() == pre.interval() && flushed.writer() == pre.writer(),
{
}

/// The checks that are enabled are each what they were set to.
pub proof fn checks_are_as_set(strategy: LivenessStrategy, connect: bool, drive: bool, read: bool, write: bool)
    requires
        strategy.has(connect, drive, read, write),
    ensures
        strategy.resets_on_connect() == connect,
        strategy.resets_on_drive() == drive,
        strategy.resets_on_read() == read,
        strategy.resets_on_write() == write,
{
}

/// Flushing is done by the underlying session, and keeps liveness.
pub proof fn flushing_keeps_liveness<S>(pre: LivenessSession<S>, flushed: LivenessSession<S>, f: Result<(), Error>) where
    S: Session + 'static,

    requires
        pre.flushes(&flushed, f),
    ensures
        pre.connected() == pre.inner().connected(),
        pre.inner().flushes(&flushed.inner(), f),
        flushed.liveness() == pre.liveness() && flushed.timeout() == pre.timeout() && flushed.strategy()
            == pre.strategy(),
{
}

} // verus!
