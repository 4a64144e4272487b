//! Uni-directional and bi-directional nonblocking I/O
//!
//! The core [`Session`] trait encapsulates controlling a single instance of a connection or logical session.
//! A [`Session`] impl is typically also either [`Publish`], [`Receive`], or both. Partial operations are reported as
//! outcomes, and an [`Error`] always represents a transport or protocol-level error.
//!
//! Sockets and the handles of other libraries belong to the caller. Where a session has to work with them, it says step by
//! step what is to be done, and takes what came of it.
pub mod aeron;
pub mod buffer;
pub mod compat;
pub mod crossbeam;
pub mod dns;
pub mod error;
pub mod frame;
pub mod http;
pub mod liveness;
pub mod mock;
pub mod tcp;
pub mod time;
pub mod tls;
pub mod util;
pub mod websocket;

use vstd::prelude::*;

pub use error::{Error, ErrorKind};

verus! {

/// An instance of a connection or logical session, which may also support [`Receive`] or [`Publish`].
///
/// ## Connecting
///
/// Some implementations may not default to an established state, in which case immediate calls to
/// `publish()` and `receive()` will fail. The [`Session::status`] function provides the current status,
/// which will not return `Established` until all required handshakes are complete.
/// When [`Session::status`] returns [`SessionStatus::Establishing`], you may drive the connection
/// process via the [`Session::drive`] function.
///
/// ## Retrying
///
/// The [`Ok`] result of `publish(..)` and `receive(..)` operations may return [`ReceiveOutcome::Idle`],
/// [`ReceiveOutcome::Buffered`], or [`PublishOutcome::Incomplete`]. These outcomes indicate that an
/// operation may need to be retried.
///
/// ## Duty Cycles
///
/// The [`Session::drive`] operation is used to finish connecting and to service reading/writing buffered
/// data and to dispatch callbacks. Most, but not all, [`Session`] implementations will require periodic
/// calls to [`Session::drive`] in order to function. Implementations that do not require calls to
/// [`Session::drive`] will no-op when it is called.
///
/// ## Specification
///
/// Each operation that changes a session is described by a relation between the session before the call,
/// the session after it, and the result. A session that encapsulates another one states its own relations
/// over those of the encapsulated session, so that what it does is fixed for every session it is given. An implementation
/// that states no relations says nothing of what it does.
pub trait Session {
    /// The invariant of the session, which constructors establish and every operation keeps.
    open spec fn wf(&self) -> bool {
        true
    }

    /// The status that the session is in.
    open spec fn in_status(&self) -> SessionStatus {
        arbitrary()
    }

    /// Whether [`Session::close`] may lead from this session to `post`.
    open spec fn closes(&self, post: &Self) -> bool {
        true
    }

    /// Whether [`Session::drive`] may lead from this session to `post` with the result `r`.
    open spec fn drives(&self, post: &Self, r: Result<DriveOutcome, Error>) -> bool {
        true
    }

    /// Check the current session status.
    ///
    /// If this returns [`SessionStatus::Establishing`], use [`Session::drive`] to progress the connection
    /// process.
    fn status(&self) -> (r: SessionStatus)
        ensures
            r == self.in_status(),
    ;

    /// Force the session to move to a [`SessionStatus::Terminated`] state immediately, performing any
    /// necessary immediately graceful close actions as appropriate.
    ///
    /// All subsequent calls to status will return [`SessionStatus::Terminated`] immediately after this
    /// function is called.
    fn close(&mut self)
        requires
            old(self).wf(),
        ensures
            final(self).wf(),
            old(self).closes(final(self)),
            final(self).in_status() == SessionStatus::Terminated,
    ;

    /// Some implementations will internally buffer payloads or require a duty cycle to drive callbacks.
    /// Those implementations will require `drive(..)` to be called continuously to completely publish
    /// and/or receive data. This function will return [`DriveOutcome::Active`] if work was done,
    /// indicating to any scheduler that more work may be pending. When this function returns
    /// [`DriveOutcome::Idle`], only then should it indicate to a scheduler that yielding or idling is
    /// appropriate.
    fn drive(&mut self) -> (r: Result<DriveOutcome, Error>)
        requires
            old(self).wf(),
        ensures
            final(self).wf(),
            old(self).drives(final(self), r),
    ;
}

/// Returned by the [`Session::status`] function, providing the current connection state
#[derive(Debug, Clone, Copy, PartialEq, Eq, Hash, Structural)]
pub enum SessionStatus {
    /// Session attempting to connect, handshake, or otherwise establish, and will move to `Established`
    /// or `Terminated` as [`Session::drive`] is called.
    Establishing,
    /// Session is currently established, and will move `Terminated` when an unrecoverable error is
    /// encountered
    Established,
    /// Session terminal state, connection has been closed
    Terminated,
}

/// Returned by the [`Session::drive`] function, providing the result of the drive operation
#[derive(Debug, Clone, Copy, PartialEq, Eq, Hash, Structural)]
pub enum DriveOutcome {
    /// The drive operation resulted in work being done, which means the user should attempt to call
    /// [`Session::drive`] again as soon as possible.
    Active,
    /// The drive operation did not result in any work being done, which means the user may decide to
    /// yield or backoff.
    Idle,
}

/// A [`Session`] implementation that can receive payloads via polling.
pub trait Receive: Session {
    /// The type returned by the `receive(..)` function.
    type ReceivePayload<'a> where Self: 'a;

    /// Whether [`Receive::receive`] may lead from this session to `post` with the result `r`.
    open spec fn receives<'a>(
        &self,
        post: &Self,
        r: Result<ReceiveOutcome<Self::ReceivePayload<'a>>, Error>,
    ) -> bool {
        true
    }

    /// Attempt to receive a `payload` from the session.
    ///
    /// This will return [`ReceiveOutcome::Payload`] when data has been received.
    /// [`ReceiveOutcome::Buffered`] can be used to report that work was completed, but data is not ready.
    /// This means that only [`ReceiveOutcome::Idle`] should be used to indicate to a scheduler that
    /// yielding or idling is appropriate.
    fn receive<'a>(&'a mut self) -> (r: Result<ReceiveOutcome<Self::ReceivePayload<'a>>, Error>)
        requires
            old(self).wf(),
        ensures
            final(self).wf(),
            old(self).receives(final(self), r),
    ;
}

/// Returned by the [`Receive::receive`] function, providing the outcome or information about the receive
/// action.
///
/// The generic type `T` will match the cooresponding [`Receive::ReceivePayload`].
#[derive(Debug)]
pub enum ReceiveOutcome<T> {
    /// Contains a reference to payload received from the [`Receive::receive`] action.
    Payload(T),
    /// Data was buffered. This means a partial payload was received, but could not be returned as
    /// complete `Data`.
    Buffered,
    /// No work was done. This is useful to signal to a scheduler or idle strategy that it may be time to
    /// yield.
    Idle,
}

impl<T: Clone> Clone for ReceiveOutcome<T> {
    fn clone(&self) -> (r: Self)
        ensures
            match *self {
                ReceiveOutcome::Payload(x) => r matches ReceiveOutcome::Payload(y) && cloned(x, y),
                ReceiveOutcome::Buffered => r is Buffered,
                ReceiveOutcome::Idle => r is Idle,
            },
    {
        match self {
            ReceiveOutcome::Payload(x) => ReceiveOutcome::Payload(x.clone()),
            ReceiveOutcome::Buffered => ReceiveOutcome::Buffered,
            ReceiveOutcome::Idle => ReceiveOutcome::Idle,
        }
    }
}

/// A [`Session`] implementation that can publish payloads.
pub trait Publish: Session {
    /// The type given to the `publish(..)` function.
    type PublishPayload<'a> where Self: 'a;

    /// Whether [`Publish::publish`] of `payload` may lead from this session to `post` with the result `r`.
    open spec fn publishes<'a>(
        &self,
        payload: Self::PublishPayload<'a>,
        post: &Self,
        r: Result<PublishOutcome<Self::PublishPayload<'a>>, Error>,
    ) -> bool {
        true
    }

    /// Write the given `payload` to the session.
    ///
    /// This will return [`PublishOutcome::Incomplete`] if the publish is not immediately completed fully,
    /// in which case `T` of `Incomplete(T)` data must be retried.
    ///
    /// Note that it is possible for some implementations that a publish is partially complete, so you must
    /// re-attempt the data encapsulated by `Incomplete`, not the data originally passed into the function.
    /// This guidance can only be ignored when you are not writing generic code and you know that your
    /// [`Publish`] impl is "all-or-none".
    fn publish<'a>(&mut self, payload: Self::PublishPayload<'a>) -> (r: Result<
        PublishOutcome<Self::PublishPayload<'a>>,
        Error,
    >)
        requires
            old(self).wf(),
        ensures
            final(self).wf(),
            old(self).publishes(payload, final(self), r),
    ;
}

/// A [`Publish`] implementation that exposes a blocking flush operation.
pub trait Flush: Publish {
    /// Whether [`Flush::flush`] may lead from this session to `post` with the result `r`.
    open spec fn flushes(&self, post: &Self, r: Result<(), Error>) -> bool {
        true
    }

    /// Flush all pending publish data, blocking until completion.
    fn flush(&mut self) -> (r: Result<(), Error>)
        requires
            old(self).wf(),
        ensures
            final(self).wf(),
            old(self).flushes(final(self), r),
    ;
}

/// Returned by the [`Publish::publish`] function, providing the outcome of the publish action.
///
/// The generic type `T` will match the cooresponding [`Publish::PublishPayload`].
#[derive(Debug)]
pub enum PublishOutcome<T> {
    /// The publish action completed fully
    Published,
    /// The publish action was not performed or was partially performed.
    ///
    /// The returned reference must be passed back into the [`Publish::publish`] function for the publish
    /// action to complete. Whether or not the returned reference may consist of partial data depends on
    /// the [`Session`] implementation.
    ///
    /// If you are looking for a general retry pattern, it is **always** safe to finish the publish by
    /// passing this returned reference back into the `publish` function for another attempt, but it is only
    /// **sometimes** appropriate to return the entire original publish reference into the `publish`
    /// function for a second attempt.
    Incomplete(T),
}

impl<T> PublishOutcome<T> {
    /// Whether the publish action completed fully
    pub fn is_published(&self) -> (r: bool)
        ensures
            r == (*self is Published),
    {
        match self {
            PublishOutcome::Published => true,
            PublishOutcome::Incomplete(_) => false,
        }
    }
}

impl<T: Clone> Clone for PublishOutcome<T> {
    fn clone(&self) -> (r: Self)
        ensures
            match *self {
                PublishOutcome::Published => r is Published,
                PublishOutcome::Incomplete(x) => r matches PublishOutcome::Incomplete(y) && cloned(x, y),
            },
    {
        match self {
            PublishOutcome::Published => PublishOutcome::Published,
            PublishOutcome::Incomplete(x) => PublishOutcome::Incomplete(x.clone()),
        }
    }
}

/// Used by push-oriented receivers to handle moved payloads as they are received.
pub trait Callback<T> {
    /// The invariant of the callback, which every call keeps.
    open spec fn wf(&self) -> bool {
        true
    }

    /// Whether [`Callback::callback`] with `payload` may lead from this callback to `post`.
    open spec fn calls(&self, payload: T, post: &Self) -> bool {
        true
    }

    fn callback(&mut self, payload: T)
        requires
            old(self).wf(),
        ensures
            final(self).wf(),
            old(self).calls(payload, final(self)),
    ;
}

/// Used by push-oriented receivers to handle payload references as they are received.
pub trait CallbackRef<T: ?Sized> {
    /// The invariant of the callback, which every call keeps.
    open spec fn wf(&self) -> bool {
        true
    }

    /// Whether [`CallbackRef::callback_ref`] with `payload` may lead from this callback to `post`.
    open spec fn calls_ref(&self, payload: &T, post: &Self) -> bool {
        true
    }

    fn callback_ref(&mut self, payload: &T)
        requires
            old(self).wf(),
        ensures
            final(self).wf(),
            old(self).calls_ref(payload, final(self)),
    ;
}

} // verus!
