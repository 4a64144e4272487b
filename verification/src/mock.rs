//! Mock sessions, most useful for testing
use std::collections::VecDeque;

use vstd::prelude::*;

use crate::error::{Error, ErrorKind};
use crate::{DriveOutcome, Publish, PublishOutcome, Receive, ReceiveOutcome, Session, SessionStatus};

verus! {

/// A mock session, using internal [`VecDeque`] instances to drive results returned on function calls.
///
/// Data passed to `publish` is pushed to the public `publish_queue`.
/// Data returned from `receive` is popped from the public `receive_queue`.
/// When the `receive_queue` or the `drive_result_queue` is empty, the respective function reports idle.
pub struct MockSession<R, W> {
    pub status: SessionStatus,
    pub drive_result_queue: VecDeque<Result<DriveOutcome, Error>>,
    pub receive_queue: VecDeque<R>,
    pub publish_queue: VecDeque<W>,
}

impl<R, W> MockSession<R, W> where R: 'static, W: 'static {
    /// Create an established session with empty queues.
    pub fn new() -> (r: Self)
        ensures
            r.status == SessionStatus::Established,
            r.drive_result_queue@.len() == 0,
            r.receive_queue@.len() == 0,
            r.publish_queue@.len() == 0,
    {
        Self {
            status: SessionStatus::Established,
            drive_result_queue: VecDeque::new(),
            receive_queue: VecDeque::new(),
            publish_queue: VecDeque::new(),
        }
    }
}

impl<R, W> Session for MockSession<R, W> where R: 'static, W: 'static {
    open spec fn wf(&self) -> bool {
        true
    }

    open spec fn in_status(&self) -> SessionStatus {
        self.status
    }

    open spec fn closes(&self, post: &Self) -> bool {
        *post == (MockSession { status: SessionStatus::Terminated, ..*self })
    }

    open spec fn drives(&self, post: &Self, r: Result<DriveOutcome, Error>) -> bool {
        &&& post.status == self.status
        &&& post.receive_queue == self.receive_queue
        &&& post.publish_queue == self.publish_queue
        &&& if self.status == SessionStatus::Terminated {
            &&& crate::error::fails(r, ErrorKind::NotConnected, "terminated"@)
            &&& post.drive_result_queue == self.drive_result_queue
        } else if self.drive_result_queue@.len() == 0 {
            &&& r == Ok::<DriveOutcome, Error>(DriveOutcome::Idle)
            &&& post.drive_result_queue@ == self.drive_result_queue@
        } else {
            &&& r == self.drive_result_queue@[0]
            &&& post.drive_result_queue@ == self.drive_result_queue@.drop_first()
        }
    }

    fn status(&self) -> SessionStatus {
        self.status
    }

    fn close(&mut self) {
        self.status = SessionStatus::Terminated;
    }

    fn drive(&mut self) -> Result<DriveOutcome, Error> {
        if self.status == SessionStatus::Terminated {
            return Err(Error::new(ErrorKind::NotConnected, "terminated"));
        }
        match self.drive_result_queue.pop_front() {
            Some(x) => x,
            None => Ok(DriveOutcome::Idle),
        }
    }
}

impl<R, W> Publish for MockSession<R, W> where R: 'static, W: 'static {
    type PublishPayload<'a> = W;

    open spec fn publishes<'a>(
        &self,
        payload: Self::PublishPayload<'a>,
        post: &Self,
        r: Result<PublishOutcome<Self::PublishPayload<'a>>, Error>,
    ) -> bool {
        &&& post.status == self.status
        &&& post.drive_result_queue == self.drive_result_queue
        &&& post.receive_queue == self.receive_queue
        &&& if self.status != SessionStatus::Established {
            &&& crate::error::fails(r, ErrorKind::NotConnected, "not established"@)
            &&& post.publish_queue == self.publish_queue
        } else {
            &&& r == Ok::<PublishOutcome<W>, Error>(PublishOutcome::Published)
            &&& post.publish_queue@ == self.publish_queue@.push(payload)
        }
    }

    fn publish<'a>(&mut self, payload: Self::PublishPayload<'a>) -> Result<
        PublishOutcome<Self::PublishPayload<'a>>,
        Error,
    > {
        if self.status != SessionStatus::Established {
            return Err(Error::new(ErrorKind::NotConnected, "not established"));
        }
        self.publish_queue.push_back(payload);
        Ok(PublishOutcome::Published)
    }
}

impl<R, W> Receive for MockSession<R, W> where R: 'static, W: 'static {
    type ReceivePayload<'a> = R;

    open spec fn receives<'a>(
        &self,
        post: &Self,
        r: Result<ReceiveOutcome<Self::ReceivePayload<'a>>, Error>,
    ) -> bool {
        &&& post.status == self.status
        &&& post.drive_result_queue == self.drive_result_queue
        &&& post.publish_queue == self.publish_queue
        &&& if self.status != SessionStatus::Established {
            &&& crate::error::fails(r, ErrorKind::NotConnected, "not established"@)
            &&& post.receive_queue == self.receive_queue
        } else if self.receive_queue@.len() == 0 {
            &&& r == Ok::<ReceiveOutcome<R>, Error>(ReceiveOutcome::Idle)
            &&& post.receive_queue@ == self.receive_queue@
        } else {
            &&& r == Ok::<ReceiveOutcome<R>, Error>(ReceiveOutcome::Payload(self.receive_queue@[0]))
            &&& post.receive_queue@ == self.receive_queue@.drop_first()
        }
    }

    fn receive<'a>(&'a mut self) -> Result<ReceiveOutcome<Self::ReceivePayload<'a>>, Error> {
        if self.status != SessionStatus::Established {
            return Err(Error::new(ErrorKind::NotConnected, "not established"));
        }
        match self.receive_queue.pop_front() {
            None => Ok(ReceiveOutcome::Idle),
            Some(x) => Ok(ReceiveOutcome::Payload(x)),
        }
    }
}

/// A session that was closed stays terminated, whatever is done with it.
pub proof fn closed_session_stays_terminated<R, W>(
    before: MockSession<R, W>,
    closed: MockSession<R, W>,
    post: MockSession<R, W>,
    driven: Result<DriveOutcome, Error>,
    received: Result<ReceiveOutcome<R>, Error>,
    payload: W,
    published: Result<PublishOutcome<W>, Error>,
) where R: 'static, W: 'static
    requires
        before.closes(&closed),
        closed.drives(&post, driven) || closed.receives(&post, received) || closed.publishes(
            payload,
            &post,
            published,
        ),
    ensures
        closed.in_status() == SessionStatus::Terminated,
        post.in_status() == SessionStatus::Terminated,
        closed.drives(&post, driven) ==> driven is Err,
        closed.receives(&post, received) ==> received is Err,
        closed.publishes(payload, &post, published) ==> published is Err,
{
}

/// What is published to an established session is behind what was published before, and nothing else changes. A session
/// that is not established takes nothing.
pub proof fn published_payload_is_queued_last<R, W>(
    pre: MockSession<R, W>,
    payload: W,
    post: MockSession<R, W>,
    r: Result<PublishOutcome<W>, Error>,
) where R: 'static, W: 'static
    requires
        pre.publishes(payload, &post, r),
    ensures
        pre.in_status() == SessionStatus::Established ==> {
            &&& r == Ok::<PublishOutcome<W>, Error>(PublishOutcome::Published)
            &&& post.publish_queue@.len() == pre.publish_queue@.len() + 1
            &&& post.publish_queue@.last() == payload
            &&& post.publish_queue@.drop_last() == pre.publish_queue@
        },
        pre.in_status() != SessionStatus::Established ==> {
            &&& crate::error::fails(r, ErrorKind::NotConnected, "not established"@)
            &&& post.publish_queue@ == pre.publish_queue@
        },
        post.in_status() == pre.in_status(),
        post.receive_queue@ == pre.receive_queue@,
        post.drive_result_queue@ == pre.drive_result_queue@,
{
    assert(post.publish_queue@.len() > pre.publish_queue@.len() ==> post.publish_queue@.drop_last()
        =~= pre.publish_queue@);
}

/// An established session gives what is queued to be received, the first one first, each once, and is idle when there is
/// nothing. A session that is not established gives nothing.
pub proof fn queued_payload_is_received_first<R, W>(
    pre: MockSession<R, W>,
    post: MockSession<R, W>,
    r: Result<ReceiveOutcome<R>, Error>,
) where R: 'static, W: 'static
    requires
        pre.receives(&post, r),
    ensures
        match r {
            Ok(ReceiveOutcome::Payload(payload)) => {
                &&& pre.in_status() == SessionStatus::Established
                &&& pre.receive_queue@ == seq![payload] + post.receive_queue@
            },
            Ok(ReceiveOutcome::Idle) => {
                &&& pre.in_status() == SessionStatus::Established
                &&& pre.receive_queue@.len() == 0
                &&& post.receive_queue@.len() == 0
            },
            Ok(ReceiveOutcome::Buffered) => false,
            Err(e) => {
                &&& pre.in_status() != SessionStatus::Established
                &&& e.kind == ErrorKind::NotConnected
                &&& post.receive_queue@ == pre.receive_queue@
            },
        },
        post.in_status() == pre.in_status(),
        post.publish_queue@ == pre.publish_queue@,
        post.drive_result_queue@ == pre.drive_result_queue@,
{
    if let Ok(ReceiveOutcome::Payload(payload)) = r {
        assert(pre.receive_queue@ =~= seq![payload] + post.receive_queue@);
    }
}

/// Driving gives the results that are queued, the first one first, each once, and is idle when there is none. A terminated
/// session cannot be driven.
pub proof fn queued_result_is_given_first<R, W>(
    pre: MockSession<R, W>,
    post: MockSession<R, W>,
    r: Result<DriveOutcome, Error>,
) where R: 'static, W: 'static
    requires
        pre.drives(&post, r),
    ensures
        pre.in_status() == SessionStatus::Terminated ==> crate::error::fails(
            r,
            ErrorKind::NotConnected,
            "terminated"@,
        ) && post.drive_result_queue@ == pre.drive_result_queue@,
        pre.in_status() != SessionStatus::Terminated && pre.drive_result_queue@.len() == 0 ==> r == Ok::<
            DriveOutcome,
            Error,
        >(DriveOutcome::Idle) && post.drive_result_queue@.len() == 0,
        pre.in_status() != SessionStatus::Terminated && pre.drive_result_queue@.len() > 0
            ==> pre.drive_result_queue@ == seq![r] + post.drive_result_queue@,
        post.in_status() == pre.in_status(),
        post.publish_queue@ == pre.publish_queue@,
        post.receive_queue@ == pre.receive_queue@,
{
    if pre.in_status() != SessionStatus::Terminated && pre.drive_result_queue@.len() > 0 {
        assert(pre.drive_result_queue@ =~= seq![r] + post.drive_result_queue@);
    }
}

/// Closing keeps all that is queued.
pub proof fn closing_keeps_queues<R, W>(pre: MockSession<R, W>, post: MockSession<R, W>) where R: 'static, W: 'static
    requires
        pre.closes(&post),
    ensures
        post.in_status() == SessionStatus::Terminated,
        post.publish_queue == pre.publish_queue,
        post.receive_queue == pre.receive_queue,
        post.drive_result_queue == pre.drive_result_queue,
{
}

} // verus!
