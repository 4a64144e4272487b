//! [`Session`] implementations that can provide or monitor "liveness" for an underlying session.
use vstd::prelude::*;

use crate::error::{Error, ErrorKind};
use crate::time::{now, Deadline, Duration, SystemTime};
use crate::{
    DriveOutcome, Flush, Publish, PublishOutcome, Receive, ReceiveOutcome, Session, SessionStatus,
};

verus! {

/// Used by a [`HeartbeatingSession`] to indicate if a heartbeat was sent, skipped, or failed.
///
/// When a heartbeat was `Sent` or `Skipped`, the [`HeartbeatingSession`] will schedule the next heartbeat.
/// When a heartbeat `Failed`, the [`HeartbeatingSession`] will re-attempt the heartbeat on the next call to `drive`.
#[derive(Debug, Clone, Copy)]
pub enum HeartbeatOutcome {
    Sent,
    Skipped,
    Failed,
}

/// Writes heartbeats to a session of type `S`.
pub trait WriteHeartbeat<S> {
    /// Whether writing a heartbeat may lead to `post` and `post_session` with the result `r`.
    open spec fn writes(
        &self,
        session: &S,
        post: &Self,
        post_session: &S,
        r: Result<HeartbeatOutcome, Error>,
    ) -> bool where S: Session {
        true
    }

    /// Attempt to write a heartbeat directly to the session.
    fn write_heartbeat(&mut self, session: &mut S) -> (r: Result<HeartbeatOutcome, Error>) where
        S: Session,

        requires
            old(session).wf(),
        ensures
            final(session).wf(),
            old(self).writes(old(session), final(self), final(session), r),
    ;
}

/// Encapsulates an underlying [`Session`] that can [`Publish`], publishing a user-defined "heartbeat" message as a given
/// interval.
///
/// Heartbeats are produced by a user-defined [`WriteHeartbeat`], allowing the user to populate a heartbeat with sequences,
/// timestamps, etc. Heartbeat messages are written on calls to [`Session::drive`] using an internal timestamp to schedule
/// when to send heartbeats.
///
/// [`HeartbeatingSession`] will also implement [`Receive`] for underlying any underlying [`Session`] that also implements
/// [`Receive`].
pub struct HeartbeatingSession<S, F> {
    session: S,
    interval: Duration,
    heartbeat_writer: F,
    next_heartbeat: Deadline,
}

impl<S, F> HeartbeatingSession<S, F> {
    /// The underlying session.
    pub closed spec fn inner(&self) -> S {
        self.session
    }

    /// What writes heartbeats.
    pub closed spec fn writer(&self) -> F {
        self.heartbeat_writer
    }

    /// The nanoseconds between heartbeats.
    pub closed spec fn interval(&self) -> nat {
        self.interval@
    }

    /// When the next heartbeat is due.
    pub closed spec fn next(&self) -> int {
        self.next_heartbeat@
    }

    /// Whether everything but the underlying session is the same.
    pub open spec fn same_schedule(&self, other: &Self) -> bool {
        &&& self.writer() == other.writer()
        &&& self.interval() == other.interval()
        &&& self.next() == other.next()
    }
}

impl<S, F> HeartbeatingSession<S, F> where S: Publish + 'static, F: WriteHeartbeat<S> {
    /// Create a new `HeartbeatingSession`, using the given [`Session`], `interval`, and `heartbeat_writer`.
    pub fn new(session: S, interval: Duration, heartbeat_writer: F) -> (r: Self)
        requires
            session.wf(),
        ensures
            r.wf(),
            r.inner() == session,
            r.writer() == heartbeat_writer,
            r.interval() == interval@,
            exists|now: SystemTime| #[trigger]
                crate::time::is_clock_reading(now) && r.next() == now@ + interval@,
    {
        Self::new_at(session, interval, heartbeat_writer, now())
    }

    /// Create a new `HeartbeatingSession` whose first heartbeat is due one interval after the given time.
    pub fn new_at(session: S, interval: Duration, heartbeat_writer: F, now: SystemTime) -> (r: Self)
        requires
            session.wf(),
        ensures
            r.wf(),
            r.inner() == session,
            r.writer() == heartbeat_writer,
            r.interval() == interval@,
            r.next() == now@ + interval@,
    {
        Self { session, interval, heartbeat_writer, next_heartbeat: now.after(interval) }
    }

    /// Get the underlying session
    pub fn session<'a>(&'a mut self) -> (r: &'a S)
        ensures
            *r == old(self).inner(),
            *final(self) == *old(self),
    {
        &self.session
    }

    /// Get the mutable underlying session
    pub fn session_mut<'a>(&'a mut self) -> (r: &'a mut S)
        ensures
            *r == old(self).inner(),
            final(self).inner() == *final(r),
            final(self).same_schedule(old(self)),
    {
        &mut self.session
    }

    /// Whether driving at that time may lead to `post` with the result `r`. When no heartbeat is due, the underlying
    /// session is driven. When one is due, it is written first; unless that failed, the next one is scheduled one interval
    /// later.
    pub open spec fn drives_at(&self, now: int, post: &Self, r: Result<DriveOutcome, Error>) -> bool {
        &&& post.interval() == self.interval()
        &&& if now < self.next() {
            &&& post.same_schedule(self)
            &&& self.inner().drives(&post.inner(), r)
        } else {
            exists|mid: S, h: Result<HeartbeatOutcome, Error>| #[trigger]
                self.writer().writes(&self.inner(), &post.writer(), &mid, h) && match h {
                    Err(e) => {
                        &&& r == Err::<DriveOutcome, Error>(e)
                        &&& post.inner() == mid
                        &&& post.next() == self.next()
                    },
                    Ok(HeartbeatOutcome::Failed) => {
                        &&& mid.drives(&post.inner(), r)
                        &&& post.next() == self.next()
                    },
                    Ok(_) => {
                        &&& post.next() == now + self.interval()
                        &&& exists|d: Result<DriveOutcome, Error>| #[trigger]
                            mid.drives(&post.inner(), d) && r == match d {
                                Ok(_) => Ok(DriveOutcome::Active),
                                Err(e) => Err(e),
                            }
                    },
                }
        }
    }

    /// Write a heartbeat if one is due at that time, and drive the underlying session.
    pub fn drive_at(&mut self, now: SystemTime) -> (r: Result<DriveOutcome, Error>)
        requires
            old(self).wf(),
        ensures
            final(self).wf(),
            old(self).drives_at(now@, final(self), r),
    {
        if self.next_heartbeat.is_reached(now) {
            let written = self.heartbeat_writer.write_heartbeat(&mut self.session);
            let ghost mid = self.inner();
            assert(old(self).writer().writes(&old(self).inner(), &self.writer(), &mid, written));
            let failed = match written? {
                HeartbeatOutcome::Failed => true,
                _ => false,
            };
            if !failed {
                self.next_heartbeat = now.after(self.interval);
                let driven = self.session.drive();
                assert(old(self).writer().writes(&old(self).inner(), &self.writer(), &mid, written));
                assert(mid.drives(&self.inner(), driven));
                driven?;
                return Ok(DriveOutcome::Active);
            }
            let r = self.session.drive();
            assert(old(self).writer().writes(&old(self).inner(), &self.writer(), &mid, written));
            return r;
        }
        self.session.drive()
    }
}

/// A heartbeat that failed is due again at every later time, and one that was sent or skipped is due again one interval
/// later. Before that, driving writes none.
pub proof fn next_heartbeat_is_scheduled<S, F>(
    before: HeartbeatingSession<S, F>,
    now: int,
    post: HeartbeatingSession<S, F>,
    r: Result<DriveOutcome, Error>,
) where S: Publish + 'static, F: WriteHeartbeat<S>
    requires
        before.drives_at(now, &post, r),
    ensures
        now < before.next() ==> post.writer() == before.writer() && post.next() == before.next(),
        now >= before.next() ==> post.next() == before.next() || post.next() == now + before.interval(),
        post.next() != before.next() ==> exists|mid: S, h: HeartbeatOutcome| #[trigger]
            before.writer().writes(&before.inner(), &post.writer(), &mid, Ok(h)) && !(h is Failed),
{
    if now >= before.next() && post.next() != before.next() {
        let (mid, h) = choose|mid: S, h: Result<HeartbeatOutcome, Error>| #[trigger]
            before.writer().writes(&before.inner(), &post.writer(), &mid, h) && match h {
                Err(e) => post.next() == before.next(),
                Ok(HeartbeatOutcome::Failed) => post.next() == before.next(),
                Ok(_) => post.next() == now + before.interval(),
            };
        assert(before.writer().writes(&before.inner(), &post.writer(), &mid, Ok(h->Ok_0)));
    }
}

/// Whether a writer writes heartbeats that are counted: the heartbeat that is sent when `sequence` of the writer is `n` is
/// `heartbeat` of `n`, goes behind what `queue` has of the session, and is counted. A heartbeat that is not sent changes
/// neither.
pub open spec fn counts_heartbeats<S, F, T>(
    queue: spec_fn(S) -> Seq<T>,
    sequence: spec_fn(F) -> nat,
    heartbeat: spec_fn(nat) -> T,
) -> bool where S: Publish + 'static, F: WriteHeartbeat<S> {
    forall|writer: F, session: S, post: F, post_session: S, h: Result<HeartbeatOutcome, Error>| #[trigger]
        writer.writes(&session, &post, &post_session, h) ==> if h == Ok::<HeartbeatOutcome, Error>(
            HeartbeatOutcome::Sent,
        ) {
            &&& queue(post_session) == queue(session).push(heartbeat(sequence(writer)))
            &&& sequence(post) == sequence(writer) + 1
        } else {
            &&& queue(post_session) == queue(session)
            &&& sequence(post) == sequence(writer)
        }
}

/// Whether driving a session leaves what `queue` has of it as it is.
pub open spec fn drive_keeps<S, T>(queue: spec_fn(S) -> Seq<T>) -> bool where S: Publish + 'static {
    forall|session: S, post: S, d: Result<DriveOutcome, Error>| #[trigger]
        session.drives(&post, d) ==> queue(post) == queue(session)
}

/// The underlying session holds the heartbeats that were sent, in their order: after any number of drives, each at its
/// time, they are behind what its queue held before.
pub proof fn session_holds_sent_heartbeats<S, F, T>(
    sessions: Seq<HeartbeatingSession<S, F>>,
    drives: Seq<(int, Result<DriveOutcome, Error>)>,
    queue: spec_fn(S) -> Seq<T>,
    sequence: spec_fn(F) -> nat,
    heartbeat: spec_fn(nat) -> T,
) where S: Publish + 'static, F: WriteHeartbeat<S>
    requires
        counts_heartbeats(queue, sequence, heartbeat),
        drive_keeps(queue),
        sessions.len() == drives.len() + 1,
        forall|i: int|
            0 <= i < drives.len() ==> sessions[i].drives_at(
                (#[trigger] drives[i]).0,
                &sessions[i + 1],
                drives[i].1,
            ),
    ensures
        sequence(sessions.last().writer()) >= sequence(sessions[0].writer()),
        queue(sessions.last().inner()) == queue(sessions[0].inner()) + Seq::new(
            (sequence(sessions.last().writer()) - sequence(sessions[0].writer())) as nat,
            |i: int| heartbeat((sequence(sessions[0].writer()) + i) as nat),
        ),
    decreases drives.len(),
{
    let first = sequence(sessions[0].writer());
    if drives.len() == 0 {
        assert(queue(sessions[0].inner()) =~= queue(sessions[0].inner()) + Seq::new(
            0,
            |i: int| heartbeat((first + i) as nat),
        ));
    } else {
        let n = drives.len() - 1;
        let before = sessions.drop_last();
        assert forall|i: int| 0 <= i < drives.drop_last().len() implies before[i].drives_at(
            (#[trigger] drives.drop_last()[i]).0,
            &before[i + 1],
            drives.drop_last()[i].1,
        ) by {
            assert(drives.drop_last()[i] == drives[i]);
        }
        session_holds_sent_heartbeats(before, drives.drop_last(), queue, sequence, heartbeat);
        let pre = sessions[n as int];
        let post = sessions[n + 1];
        assert(before.last() == pre && sessions.last() == post);
        assert(pre.drives_at(drives[n as int].0, &post, drives[n as int].1));
        lemma_drive_queues_heartbeat(pre, drives[n as int].0, post, drives[n as int].1, queue, sequence, heartbeat);
        let next = sequence(pre.writer());
        let held = Seq::new((next - first) as nat, |i: int| heartbeat((first + i) as nat));
        let held_after = Seq::new((next + 1 - first) as nat, |i: int| heartbeat((first + i) as nat));
        assert(held.push(heartbeat(next)) =~= held_after);
        assert((queue(sessions[0].inner()) + held).push(heartbeat(next)) =~= queue(sessions[0].inner())
            + held_after);
    }
}

/// The queue of a [`crate::mock::MockSession`] to which nothing else was published starts with the heartbeats that were sent, the first
/// one first: what is popped from it are these, in their order.
pub proof fn mock_session_queues_heartbeats<R, W, F>(
    sessions: Seq<HeartbeatingSession<crate::mock::MockSession<R, W>, F>>,
    drives: Seq<(int, Result<DriveOutcome, Error>)>,
    sequence: spec_fn(F) -> nat,
    heartbeat: spec_fn(nat) -> W,
) where R: 'static, W: 'static, F: WriteHeartbeat<crate::mock::MockSession<R, W>>
    requires
        counts_heartbeats(|s: crate::mock::MockSession<R, W>| s.publish_queue@, sequence, heartbeat),
        sessions.len() == drives.len() + 1,
        forall|i: int|
            0 <= i < drives.len() ==> sessions[i].drives_at(
                (#[trigger] drives[i]).0,
                &sessions[i + 1],
                drives[i].1,
            ),
        sessions[0].inner().publish_queue@.len() == 0,
        sequence(sessions[0].writer()) == 0,
    ensures
        sessions.last().inner().publish_queue@.len() == sequence(sessions.last().writer()),
        forall|i: int|
            0 <= i < sequence(sessions.last().writer()) ==> #[trigger] sessions.last().inner().publish_queue@[i]
                == heartbeat(i as nat),
{
    let queue = |s: crate::mock::MockSession<R, W>| s.publish_queue@;
    assert(drive_keeps(queue));
    session_holds_sent_heartbeats(sessions, drives, queue, sequence, heartbeat);
}

/// A drive puts one heartbeat in the queue and counts it, or does neither.
proof fn lemma_drive_queues_heartbeat<S, F, T>(
    pre: HeartbeatingSession<S, F>,
    now: int,
    post: HeartbeatingSession<S, F>,
    r: Result<DriveOutcome, Error>,
    queue: spec_fn(S) -> Seq<T>,
    sequence: spec_fn(F) -> nat,
    heartbeat: spec_fn(nat) -> T,
) where S: Publish + 'static, F: WriteHeartbeat<S>
    requires
        counts_heartbeats(queue, sequence, heartbeat),
        drive_keeps(queue),
        pre.drives_at(now, &post, r),
    ensures
        ({
            ||| queue(post.inner()) == queue(pre.inner()) && sequence(post.writer()) == sequence(
                pre.writer(),
            )
            ||| queue(post.inner()) == queue(pre.inner()).push(heartbeat(sequence(pre.writer())))
                && sequence(post.writer()) == sequence(pre.writer()) + 1
        }),
{
}

impl<S, F> Session for HeartbeatingSession<S, F> where S: Publish + 'static, F: WriteHeartbeat<S> {
    closed spec fn wf(&self) -> bool {
        self.session.wf()
    }

    open spec fn in_status(&self) -> SessionStatus {
        self.inner().in_status()
    }

    open spec fn closes(&self, post: &Self) -> bool {
        self.inner().closes(&post.inner()) && post.same_schedule(self)
    }

    open spec fn drives(&self, post: &Self, r: Result<DriveOutcome, Error>) -> bool {
        exists|now: SystemTime| #[trigger]
            crate::time::is_clock_reading(now) && self.drives_at(now@, post, r)
    }

    fn status(&self) -> SessionStatus {
        self.session.status()
    }

    fn close(&mut self) {
        self.session.close()
    }

    fn drive(&mut self) -> Result<DriveOutcome, Error> {
        self.drive_at(now())
    }
}

impl<S, F> Publish for HeartbeatingSession<S, F> where S: Publish + 'static, F: WriteHeartbeat<S> + 'static {
    type PublishPayload<'a> = S::PublishPayload<'a>;

    open spec fn publishes<'a>(
        &self,
        payload: Self::PublishPayload<'a>,
        post: &Self,
        r: Result<PublishOutcome<Self::PublishPayload<'a>>, Error>,
    ) -> bool {
        self.inner().publishes(payload, &post.inner(), r) && post.same_schedule(self)
    }

    fn publish<'a>(&mut self, payload: Self::PublishPayload<'a>) -> Result<
        PublishOutcome<Self::PublishPayload<'a>>,
        Error,
    > {
        self.session.publish(payload)
    }
}

impl<S, F> Receive for HeartbeatingSession<S, F> where
    S: Receive + Publish + 'static,
    F: WriteHeartbeat<S> + 'static,
 {
    type ReceivePayload<'a> = S::ReceivePayload<'a>;

    open spec fn receives<'a>(
        &self,
        post: &Self,
        r: Result<ReceiveOutcome<Self::ReceivePayload<'a>>, Error>,
    ) -> bool {
        self.inner().receives(&post.inner(), r) && post.same_schedule(self)
    }

    fn receive<'a>(&'a mut self) -> Result<ReceiveOutcome<Self::ReceivePayload<'a>>, Error> {
        self.session.receive()
    }
}

impl<S, F> Flush for HeartbeatingSession<S, F> where
    S: Receive + Flush + 'static,
    F: WriteHeartbeat<S> + 'static,
 {
    open spec fn flushes(&self, post: &Self, r: Result<(), Error>) -> bool {
        self.inner().flushes(&post.inner(), r) && post.same_schedule(self)
    }

    fn flush(&mut self) -> Result<(), Error> {
        self.session.flush()
    }
}

/// Encapsulates an underlying [`Session`], returning an error when a liveness check fails.
///
/// A liveness timestamp is tracked internally and is reset based on the given [`LivenessStrategy`].
///
/// When the configured duration elapses without liveness being reset, the `drive` function will return an `Err` or
/// [`ErrorKind::TimedOut`].
pub struct LivenessSession<S> {
    session: S,
    check: LivenessCheck,
}

/// When liveness ends, and what resets it.
struct LivenessCheck {
    timeout: Duration,
    strategy: LivenessStrategy,
    liveness: Deadline,
}

impl LivenessCheck {
    /// Whether `post` has the same setup, with liveness reset at that time if it is to be reset.
    spec fn resets(&self, reset: bool, now: int, post: &Self) -> bool {
        &&& post.timeout == self.timeout
        &&& post.strategy == self.strategy
        &&& post.liveness@ == if reset {
            now + self.timeout@
        } else {
            self.liveness@
        }
    }

    /// Receiving ended at that time, and gave something or not.
    fn received_at(&mut self, received: bool, now: SystemTime)
        ensures
            old(self).resets(received && old(self).strategy.resets_on_receive(), now@, final(self)),
    {
        if received && self.strategy.receive {
            self.liveness = now.after(self.timeout);
        }
    }

    /// Publishing ended at that time, and completed or not.
    fn published_at(&mut self, published: bool, now: SystemTime)
        ensures
            old(self).resets(published && old(self).strategy.resets_on_publish(), now@, final(self)),
    {
        if published && self.strategy.publish {
            self.liveness = now.after(self.timeout);
        }
    }
}

impl<S> LivenessSession<S> {
    /// The underlying session.
    pub closed spec fn inner(&self) -> S {
        self.session
    }

    /// The nanoseconds after which liveness ends that was not reset.
    pub closed spec fn timeout(&self) -> nat {
        self.check.timeout@
    }

    /// What resets liveness.
    pub closed spec fn strategy(&self) -> LivenessStrategy {
        self.check.strategy
    }

    /// When liveness ends.
    pub closed spec fn liveness(&self) -> int {
        self.check.liveness@
    }

    /// Whether `post` has the same setup, with liveness reset at that time if it is to be reset.
    pub open spec fn resets(&self, reset: bool, now: int, post: &Self) -> bool {
        &&& post.timeout() == self.timeout()
        &&& post.strategy() == self.strategy()
        &&& post.liveness() == if reset {
            now + self.timeout()
        } else {
            self.liveness()
        }
    }

    /// Whether `post` has the same setup, with liveness reset if it is to be reset: it then ends one timeout after what the
    /// clock of the system reads.
    pub open spec fn may_reset(&self, reset: bool, post: &Self) -> bool {
        if reset {
            exists|now: SystemTime| #[trigger]
                crate::time::is_clock_reading(now) && self.resets(true, now@, post)
        } else {
            self.resets(false, 0, post)
        }
    }

    /// What is reported of a drive of the underlying session that ended at that time with the outcome `o`.
    pub open spec fn reports(&self, o: DriveOutcome, now: int, r: Result<DriveOutcome, Error>) -> bool {
        if now > self.liveness() && !self.is_reset_by(o) {
            crate::error::fails(r, ErrorKind::TimedOut, "liveness check"@)
        } else {
            r == Ok::<DriveOutcome, Error>(o)
        }
    }

    /// Whether a drive of the underlying session with the result `o` resets liveness.
    pub open spec fn is_reset_by(&self, o: DriveOutcome) -> bool {
        o == DriveOutcome::Active && self.strategy().resets_on_drive()
    }

    /// Whether a drive of the underlying session that ended at that time with the result `d` may lead to `post` with the
    /// result `r`.
    pub open spec fn reacts(
        &self,
        d: Result<DriveOutcome, Error>,
        now: int,
        post: &Self,
        r: Result<DriveOutcome, Error>,
    ) -> bool {
        match d {
            Err(e) => r == d && self.resets(false, now, post),
            Ok(o) => self.reports(o, now, r) && self.resets(
                self.is_reset_by(o),
                now,
                post,
            ),
        }
    }
}

impl<S> LivenessSession<S> where S: Receive + 'static {
    /// Create a new `LivenessSession`, using the given [`Session`], [`LivenessStrategy`], and `timeout`.
    pub fn new(session: S, timeout: Duration, strategy: LivenessStrategy) -> (r: Self)
        requires
            session.wf(),
        ensures
            r.wf(),
            r.inner() == session,
            r.timeout() == timeout@,
            r.strategy() == strategy,
            exists|now: SystemTime| #[trigger]
                crate::time::is_clock_reading(now) && r.liveness() == now@ + timeout@,
    {
        Self::new_at(session, timeout, strategy, now())
    }

    /// Create a new `LivenessSession` whose liveness was reset at the given time.
    pub fn new_at(session: S, timeout: Duration, strategy: LivenessStrategy, now: SystemTime) -> (r: Self)
        requires
            session.wf(),
        ensures
            r.wf(),
            r.inner() == session,
            r.timeout() == timeout@,
            r.strategy() == strategy,
            r.liveness() == now@ + timeout@,
    {
        Self { session, check: LivenessCheck { timeout, strategy, liveness: now.after(timeout) } }
    }

    /// Get the underlying session
    pub fn session<'a>(&'a mut self) -> (r: &'a S)
        ensures
            *r == old(self).inner(),
            *final(self) == *old(self),
    {
        &self.session
    }

    /// Get the mutable underlying session
    pub fn session_mut<'a>(&'a mut self) -> (r: &'a mut S)
        ensures
            *r == old(self).inner(),
            final(self).inner() == *final(r),
            old(self).resets(false, 0, final(self)),
    {
        &mut self.session
    }

    /// Receiving from the underlying session ended at that time, and gave something or not.
    pub fn received_at(&mut self, received: bool, now: SystemTime)
        ensures
            final(self).inner() == old(self).inner(),
            old(self).resets(received && old(self).strategy().resets_on_receive(), now@, final(self)),
    {
        self.check.received_at(received, now)
    }

    /// Publishing to the underlying session ended at that time, and completed or not.
    pub fn published_at(&mut self, published: bool, now: SystemTime)
        ensures
            final(self).inner() == old(self).inner(),
            old(self).resets(published && old(self).strategy().resets_on_publish(), now@, final(self)),
    {
        self.check.published_at(published, now)
    }

    /// The underlying session was driven, and reported that outcome at that time.
    pub fn driven_at(&mut self, outcome: DriveOutcome, now: SystemTime) -> (r: Result<DriveOutcome, Error>)
        ensures
            final(self).inner() == old(self).inner(),
            old(self).resets(old(self).is_reset_by(outcome), now@, final(self)),
            old(self).reports(outcome, now@, r),
    {
        if self.check.strategy.drive && outcome == DriveOutcome::Active {
            self.check.liveness = now.after(self.check.timeout);
            Ok(outcome)
        } else if self.check.liveness.is_passed(now) {
            Err(Error::new(ErrorKind::TimedOut, "liveness check"))
        } else {
            Ok(outcome)
        }
    }
}

/// A drive after the end of liveness, which does not reset it, fails.
pub proof fn elapsed_liveness_is_reported<S>(
    before: LivenessSession<S>,
    o: DriveOutcome,
    now: int,
    post: LivenessSession<S>,
    r: Result<DriveOutcome, Error>,
)
    requires
        before.reacts(Ok(o), now, &post, r),
        now > before.liveness(),
        !before.is_reset_by(o),
    ensures
        crate::error::fails(r, ErrorKind::TimedOut, "liveness check"@),
        post.liveness() == before.liveness(),
{
}

/// Until one timeout has elapsed since liveness was reset, a drive reports what the underlying session reports.
pub proof fn reset_liveness_lasts<S>(
    before: LivenessSession<S>,
    reset_at: int,
    reset: LivenessSession<S>,
    d: Result<DriveOutcome, Error>,
    now: int,
    post: LivenessSession<S>,
    r: Result<DriveOutcome, Error>,
)
    requires
        before.resets(true, reset_at, &reset),
        reset.reacts(d, now, &post, r),
        now <= reset_at + before.timeout(),
    ensures
        r == d,
{
}

/// Whether receiving gave a payload, or a part of one.
pub open spec fn is_received<T>(r: Result<ReceiveOutcome<T>, Error>) -> bool {
    r matches Ok(outcome) && (outcome is Payload || outcome is Buffered)
}

/// Whether publishing completed.
pub open spec fn is_published<T>(r: Result<PublishOutcome<T>, Error>) -> bool {
    r matches Ok(outcome) && outcome is Published
}

impl<S> Session for LivenessSession<S> where S: Receive + 'static {
    closed spec fn wf(&self) -> bool {
        self.session.wf()
    }

    open spec fn in_status(&self) -> SessionStatus {
        self.inner().in_status()
    }

    open spec fn closes(&self, post: &Self) -> bool {
        self.inner().closes(&post.inner()) && self.resets(false, 0, post)
    }

    open spec fn drives(&self, post: &Self, r: Result<DriveOutcome, Error>) -> bool {
        exists|d: Result<DriveOutcome, Error>| #[trigger]
            self.inner().drives(&post.inner(), d) && match d {
                Err(_) => self.reacts(d, 0, post, r),
                Ok(_) => exists|now: SystemTime| #[trigger]
                    crate::time::is_clock_reading(now) && self.reacts(d, now@, post, r),
            }
    }

    fn status(&self) -> SessionStatus {
        self.session.status()
    }

    fn close(&mut self) {
        self.session.close()
    }

    fn drive(&mut self) -> Result<DriveOutcome, Error> {
        let driven = self.session.drive();
        assert(old(self).inner().drives(&self.inner(), driven));
        assert(old(self).reacts(driven, 0, self, driven) || driven is Ok);
        let outcome = driven?;
        let now = now();
        let r = self.driven_at(outcome, now);
        assert(old(self).inner().drives(&self.inner(), Ok(outcome)));
        assert(old(self).reacts(Ok(outcome), now@, self, r));
        r
    }
}

impl<S> Receive for LivenessSession<S> where S: Receive + 'static {
    type ReceivePayload<'a> = S::ReceivePayload<'a>;

    open spec fn receives<'a>(
        &self,
        post: &Self,
        r: Result<ReceiveOutcome<Self::ReceivePayload<'a>>, Error>,
    ) -> bool {
        &&& self.inner().receives(&post.inner(), r)
        &&& self.may_reset(is_received(r) && self.strategy().resets_on_receive(), post)
    }

    fn receive<'a>(&'a mut self) -> Result<ReceiveOutcome<Self::ReceivePayload<'a>>, Error> {
        let r = self.session.receive()?;
        let received = match &r {
            ReceiveOutcome::Payload(_) => true,
            ReceiveOutcome::Buffered => true,
            ReceiveOutcome::Idle => false,
        };
        self.check.received_at(received, now());
        Ok(r)
    }
}

impl<S> Publish for LivenessSession<S> where S: Publish + Receive + 'static {
    type PublishPayload<'a> = S::PublishPayload<'a>;

    open spec fn publishes<'a>(
        &self,
        payload: Self::PublishPayload<'a>,
        post: &Self,
        r: Result<PublishOutcome<Self::PublishPayload<'a>>, Error>,
    ) -> bool {
        &&& self.inner().publishes(payload, &post.inner(), r)
        &&& self.may_reset(is_published(r) && self.strategy().resets_on_publish(), post)
    }

    fn publish<'a>(&mut self, payload: Self::PublishPayload<'a>) -> Result<
        PublishOutcome<Self::PublishPayload<'a>>,
        Error,
    > {
        let r = self.session.publish(payload)?;
        self.check.published_at(r.is_published(), now());
        Ok(r)
    }
}

impl<S> Flush for LivenessSession<S> where S: Flush + Receive + 'static {
    open spec fn flushes(&self, post: &Self, r: Result<(), Error>) -> bool {
        self.inner().flushes(&post.inner(), r) && self.resets(false, 0, post)
    }

    fn flush(&mut self) -> Result<(), Error> {
        self.session.flush()
    }
}

/// Used by [`LivenessSession`] to determine when to reset the `liveness` timestamp.
///
/// Checks:
/// - `receive`: resets when a call to `receive` results in [`ReceiveOutcome::Payload`] or [`ReceiveOutcome::Buffered`]
/// - `publish`: resets when a call to `publish` results in [`PublishOutcome::Published`]
/// - `drive`: resets when a call to `drive` results in [`DriveOutcome::Active`]
///
/// The [`Default`] impl enables all liveness checks, whereas `new()` will disable all liveness checks.
///
/// A builder pattern is provided to enable a combination of checks with one line of code:
/// ```no_run
/// use nbio::liveness::LivenessStrategy;
/// let strat = LivenessStrategy::new().with_receive(true).with_publish(true);
/// ```
#[derive(Debug, Clone, Copy)]
pub struct LivenessStrategy {
    drive: bool,
    receive: bool,
    publish: bool,
}

impl LivenessStrategy {
    /// Whether driving resets liveness.
    pub closed spec fn resets_on_drive(&self) -> bool {
        self.drive
    }

    /// Whether receiving resets liveness.
    pub closed spec fn resets_on_receive(&self) -> bool {
        self.receive
    }

    /// Whether publishing resets liveness.
    pub closed spec fn resets_on_publish(&self) -> bool {
        self.publish
    }

    /// Whether these are the checks that are enabled.
    pub open spec fn has(&self, drive: bool, receive: bool, publish: bool) -> bool {
        &&& self.resets_on_drive() == drive
        &&& self.resets_on_receive() == receive
        &&& self.resets_on_publish() == publish
    }

    pub fn new() -> (r: Self)
        ensures
            r.has(false, false, false),
    {
        Self { drive: false, receive: false, publish: false }
    }

    pub fn is_drive(&mut self) -> (r: bool)
        ensures
            r == old(self).resets_on_drive(),
            *final(self) == *old(self),
    {
        self.drive
    }

    pub fn is_receive(&mut self) -> (r: bool)
        ensures
            r == old(self).resets_on_receive(),
            *final(self) == *old(self),
    {
        self.receive
    }

    pub fn is_publish(&mut self) -> (r: bool)
        ensures
            r == old(self).resets_on_publish(),
            *final(self) == *old(self),
    {
        self.publish
    }

    pub fn set_drive(&mut self, drive: bool)
        ensures
            final(self).has(drive, old(self).resets_on_receive(), old(self).resets_on_publish()),
    {
        self.drive = drive;
    }

    pub fn set_receive(&mut self, receive: bool)
        ensures
            final(self).has(old(self).resets_on_drive(), receive, old(self).resets_on_publish()),
    {
        self.receive = receive;
    }

    pub fn set_publish(&mut self, publish: bool)
        ensures
            final(self).has(old(self).resets_on_drive(), old(self).resets_on_receive(), publish),
    {
        self.publish = publish;
    }

    pub fn with_drive(self, drive: bool) -> (r: Self)
        ensures
            r.has(drive, self.resets_on_receive(), self.resets_on_publish()),
    {
        Self { drive, ..self }
    }

    pub fn with_receive(self, receive: bool) -> (r: Self)
        ensures
            r.has(self.resets_on_drive(), receive, self.resets_on_publish()),
    {
        Self { receive, ..self }
    }

    pub fn with_publish(self, publish: bool) -> (r: Self)
        ensures
            r.has(self.resets_on_drive(), self.resets_on_receive(), publish),
    {
        Self { publish, ..self }
    }
}

impl Default for LivenessStrategy {
    fn default() -> (r: Self)
        ensures
            r.has(true, true, true),
    {
        Self { drive: true, receive: true, publish: true }
    }
}

/// A heartbeat is written when one is due and not before, and the underlying session is driven behind it. One that was sent
/// or skipped counts as work, and the next one is due one interval later. One that failed stays due, and the drive reports
/// what the underlying session reports. An error of the writer is reported, and the session is not driven.
pub proof fn due_heartbeat_is_written<S, F>(
    pre: HeartbeatingSession<S, F>,
    now: int,
    post: HeartbeatingSession<S, F>,
    r: Result<DriveOutcome, Error>,
) where S: Publish + 'static, F: WriteHeartbeat<S>
    requires
        pre.drives_at(now, &post, r),
    ensures
        post.interval() == pre.interval(),
        now < pre.next() ==> {
            &&& pre.inner().drives(&post.inner(), r)
            &&& post.writer() == pre.writer()
            &&& post.next() == pre.next()
        },
        now >= pre.next() ==> exists|mid: S, h: Result<HeartbeatOutcome, Error>|
            {
                &&& #[trigger] pre.writer().writes(&pre.inner(), &post.writer(), &mid, h)
                &&& h matches Err(e) ==> r == Err::<DriveOutcome, Error>(e) && post.inner() == mid && post.next() == pre.next()
                &&& h matches Ok(HeartbeatOutcome::Failed) ==> mid.drives(&post.inner(), r) && post.next() == pre.next()
                &&& (h matches Ok(outcome) && !(outcome is Failed)) ==> {
                    &&& post.next() == now + pre.interval()
                    &&& r is Ok ==> r == Ok::<DriveOutcome, Error>(DriveOutcome::Active)
                    &&& exists|d: Result<DriveOutcome, Error>| #[trigger]
                        mid.drives(&post.inner(), d) && (d is Ok <==> r is Ok)
                }
            },
{
    if now >= pre.next() {
        let (mid, h) = choose|mid: S, h: Result<HeartbeatOutcome, Error>| #[trigger]
            pre.writer().writes(&pre.inner(), &post.writer(), &mid, h) && match h {
                Err(e) => {
                    &&& r == Err::<DriveOutcome, Error>(e)
                    &&& post.inner() == mid
                    &&& post.next() == pre.next()
                },
                Ok(HeartbeatOutcome::Failed) => {
                    &&& mid.drives(&post.inner(), r)
                    &&& post.next() == pre.next()
                },
                Ok(_) => {
                    &&& post.next() == now + pre.interval()
                    &&& exists|d: Result<DriveOutcome, Error>| #[trigger]
                        mid.drives(&post.inner(), d) && r == match d {
                            Ok(_) => Ok(DriveOutcome::Active),
                            Err(e) => Err(e),
                        }
                },
            };
        assert(pre.writer().writes(&pre.inner(), &post.writer(), &mid, h));
        if h is Ok && !(h->Ok_0 is Failed) {
            let d = choose|d: Result<DriveOutcome, Error>| #[trigger]
                mid.drives(&post.inner(), d) && r == match d {
                    Ok(_) => Ok(DriveOutcome::Active),
                    Err(e) => Err(e),
                };
            assert(mid.drives(&post.inner(), d));
        }
    }
}

/// A drive that did work resets liveness, if driving does, and reports the work. Any other drive keeps it: it reports what
/// the underlying session reports until liveness has ended, and from then on that it timed out. A drive that failed is
/// reported as it is.
pub proof fn drive_checks_liveness<S>(
    pre: LivenessSession<S>,
    d: Result<DriveOutcome, Error>,
    now: int,
    post: LivenessSession<S>,
    r: Result<DriveOutcome, Error>,
)
    requires
        pre.reacts(d, now, &post, r),
    ensures
        post.timeout() == pre.timeout(),
        post.strategy() == pre.strategy(),
        d == Ok::<DriveOutcome, Error>(DriveOutcome::Active) && pre.strategy().resets_on_drive() ==> r == d && post.liveness() == now + pre.timeout(),
        !(d == Ok::<DriveOutcome, Error>(DriveOutcome::Active) && pre.strategy().resets_on_drive()) ==> {
            &&& post.liveness() == pre.liveness()
            &&& d is Err || now <= pre.liveness() ==> r == d
            &&& d is Ok && now > pre.liveness() ==> crate::error::fails(r, ErrorKind::TimedOut, "liveness check"@)
        },
{
}

/// Liveness that is reset ends one timeout after the time of the clock, and otherwise when it did. The setup stays the same.
proof fn lemma_may_reset<S>(pre: LivenessSession<S>, reset: bool, post: LivenessSession<S>)
    requires
        pre.may_reset(reset, &post),
    ensures
        post.timeout() == pre.timeout(),
        post.strategy() == pre.strategy(),
        !reset ==> post.liveness() == pre.liveness(),
        reset ==> exists|now: SystemTime| #[trigger]
            crate::time::is_clock_reading(now) && post.liveness() == now@ + pre.timeout(),
{
    if reset {
        let now = choose|now: SystemTime| #[trigger]
            crate::time::is_clock_reading(now) && pre.resets(true, now@, &post);
        assert(crate::time::is_clock_reading(now));
    }
}

/// Receiving gives what the underlying session gives. A payload or a part of one resets liveness, if receiving does: it then
/// ends one timeout after the time of the clock. Nothing else does.
pub proof fn receiving_resets_liveness<'a, S>(
    pre: LivenessSession<S>,
    post: LivenessSession<S>,
    r: Result<ReceiveOutcome<S::ReceivePayload<'a>>, Error>,
) where S: Receive + 'static
    requires
        pre.receives(&post, r),
    ensures
        pre.inner().receives(&post.inner(), r),
        post.timeout() == pre.timeout(),
        post.strategy() == pre.strategy(),
        pre.strategy().resets_on_receive() && (r matches Ok(outcome) && !(outcome is Idle)) ==> exists|now: SystemTime|
            #[trigger] crate::time::is_clock_reading(now) && post.liveness() == now@ + pre.timeout(),
        !pre.strategy().resets_on_receive() || r is Err || r->Ok_0 is Idle ==> post.liveness() == pre.liveness(),
{
    lemma_may_reset(pre, is_received(r) && pre.strategy().resets_on_receive(), post);
}

/// Publishing does what the underlying session does. A payload that was published resets liveness, if publishing does: it
/// then ends one timeout after the time of the clock. Nothing else does.
pub proof fn publishing_resets_liveness<'a, S>(
    pre: LivenessSession<S>,
    payload: S::PublishPayload<'a>,
    post: LivenessSession<S>,
    r: Result<PublishOutcome<S::PublishPayload<'a>>, Error>,
) where S: Publish + Receive + 'static
    requires
        pre.publishes(payload, &post, r),
    ensures
        pre.inner().publishes(payload, &post.inner(), r),
        post.timeout() == pre.timeout(),
        post.strategy() == pre.strategy(),
        pre.strategy().resets_on_publish() && (r matches Ok(outcome) && outcome is Published) ==> exists|now: SystemTime|
            #[trigger] crate::time::is_clock_reading(now) && post.liveness() == now@ + pre.timeout(),
        !pre.strategy().resets_on_publish() || r is Err || r->Ok_0 is Incomplete ==> post.liveness() == pre.liveness(),
{
    lemma_may_reset(pre, is_published(r) && pre.strategy().resets_on_publish(), post);
}

/// A drive of a session is a drive of the underlying one, which is then checked at the time of the clock.
pub proof fn driving_drives_underlying_session<S>(
    pre: LivenessSession<S>,
    post: LivenessSession<S>,
    r: Result<DriveOutcome, Error>,
) where S: Receive + 'static
    requires
        pre.drives(&post, r),
    ensures
        exists|d: Result<DriveOutcome, Error>| #[trigger] pre.inner().drives(&post.inner(), d) && (r is Ok ==> r == d) && (
        d is Err ==> r == d),
        r is Ok && !(r->Ok_0 is Active && pre.strategy().resets_on_drive()) ==> exists|now: SystemTime| #[trigger]
            crate::time::is_clock_reading(now) && now@ <= pre.liveness() && post.liveness() == pre.liveness(),
{
    let d = choose|d: Result<DriveOutcome, Error>| #[trigger]
        pre.inner().drives(&post.inner(), d) && match d {
            Err(_) => pre.reacts(d, 0, &post, r),
            Ok(_) => exists|now: SystemTime| #[trigger]
                crate::time::is_clock_reading(now) && pre.reacts(d, now@, &post, r),
        };
    if d is Ok {
        let now = choose|now: SystemTime| #[trigger]
            crate::time::is_clock_reading(now) && pre.reacts(d, now@, &post, r);
        drive_checks_liveness(pre, d, now@, post, r);
        assert(crate::time::is_clock_reading(now));
    } else {
        drive_checks_liveness(pre, d, 0, post, r);
    }
    assert(pre.inner().drives(&post.inner(), d));
}

/// Heartbeats change nothing of what is published and received, nor do publishing, receiving, flushing and closing change
/// when the next heartbeat is due.
pub proof fn heartbeats_are_apart_from_payloads<'a, S, F>(
    pre: HeartbeatingSession<S, F>,
    payload: S::PublishPayload<'a>,
    published: HeartbeatingSession<S, F>,
    p: Result<PublishOutcome<S::PublishPayload<'a>>, Error>,
    received: HeartbeatingSession<S, F>,
    x: Result<ReceiveOutcome<S::ReceivePayload<'a>>, Error>,
    flushed: HeartbeatingSession<S, F>,
    f: Result<(), Error>,
    closed: HeartbeatingSession<S, F>,
) where S: Receive + Flush + 'static, F: WriteHeartbeat<S> + 'static
    requires
        pre.publishes(payload, &published, p),
        pre.receives(&received, x),
        pre.flushes(&flushed, f),
        pre.closes(&closed),
    ensures
        pre.inner().publishes(payload, &published.inner(), p),
        pre.inner().receives(&received.inner(), x),
        pre.inner().flushes(&flushed.inner(), f),
        pre.inner().closes(&closed.inner()),
        pre.in_status() == pre.inner().in_status(),
        published.next() == pre.next() && published.interval() == pre.interval() && published.writer() == pre.writer(),
        received.next() == pre.next() && received.interval() == pre.interval() && received.writer() == pre.writer(),
        flushed.next() == pre.next() && flushed.interval() == pre.interval() && flushed.writer() == pre.writer(),
        closed.next() == pre.next() && closed.interval() == pre.interval() && closed.writer() == pre.writer(),
{
}

/// The checks that are enabled are each what they were set to.
pub proof fn checks_are_as_set(strategy: LivenessStrategy, drive: bool, receive: bool, publish: bool)
    requires
        strategy.has(drive, receive, publish),
    ensures
        strategy.resets_on_drive() == drive,
        strategy.resets_on_receive() == receive,
        strategy.resets_on_publish() == publish,
{
}

/// Flushing and closing are done by the underlying session, and keep liveness.
pub proof fn flushing_keeps_liveness<S>(
    pre: LivenessSession<S>,
    flushed: LivenessSession<S>,
    f: Result<(), Error>,
    closed: LivenessSession<S>,
) where S: Flush + Receive + 'static
    requires
        pre.flushes(&flushed, f),
        pre.closes(&closed),
    ensures
        pre.in_status() == pre.inner().in_status(),
        pre.inner().flushes(&flushed.inner(), f),
        flushed.liveness() == pre.liveness() && flushed.timeout() == pre.timeout() && flushed.strategy()
            == pre.strategy(),
        pre.inner().closes(&closed.inner()),
        closed.liveness() == pre.liveness() && closed.timeout() == pre.timeout() && closed.strategy() == pre.strategy(),
{
}

} // verus!
