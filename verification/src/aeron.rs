//! [aeron](https://github.com/real-logic/aeron) nbio decisions
//!
//! ## Functionality
//!
//! This module does not aim to provide all aeron-related functionality.
//! Instead, it aims to provide the decisions that allow aeron publications and subscriptions
//! to fit the core nbio patterns. The handles of the aeron client belong to the caller: each operation says what is to
//! be done with them, and takes what came of it.
use std::collections::VecDeque;
use std::marker::PhantomData;

use vstd::prelude::*;
use vstd::slice::slice_to_vec;
use vstd::string::*;

use crate::error::{Error, ErrorKind};
use crate::http::decimal::format_digits;
use crate::{Callback, DriveOutcome, PublishOutcome, ReceiveOutcome, SessionStatus};

verus! {

/// There is no one to consume what is published.
pub const PUBLICATION_NOT_CONNECTED: i32 = -1;

/// The consumers do not keep up.
pub const PUBLICATION_BACK_PRESSURED: i32 = -2;

/// An administrative action prevented the offer.
pub const PUBLICATION_ADMIN_ACTION: i32 = -3;

/// The publication is closed.
pub const PUBLICATION_CLOSED: i32 = -4;

/// The publication has reached its last position.
pub const PUBLICATION_MAX_POSITION_EXCEEDED: i32 = -5;

/// An error happened.
pub const PUBLICATION_ERROR: i32 = -6;

/// Where the first zero byte is, or the number of bytes when there is none.
pub open spec fn zero_index(bytes: Seq<u8>) -> nat
    decreases bytes.len(),
{
    if bytes.len() == 0 || bytes[0] == 0 {
        0
    } else {
        1 + zero_index(bytes.drop_first())
    }
}

/// Check that a text can be handed to the aeron client, which takes texts without zero bytes.
pub fn check_text(value: &str) -> (r: Result<(), Error>)
    ensures
        ({
            let bytes = vstd::utf8::encode_utf8(value@);
            if zero_index(bytes) < bytes.len() {
                crate::error::fails(
                    r,
                    ErrorKind::InvalidData,
                    "nul byte found in provided data at position: "@ + crate::http::decimal::digits(
                        zero_index(bytes),
                    ),
                )
            } else {
                r is Ok
            }
        }),
{
    let bytes = value.as_bytes();
    let mut i: usize = 0;
    assert(bytes@.skip(0) =~= bytes@);
    while i < bytes.len()
        invariant
            i <= bytes@.len(),
            bytes@ == vstd::utf8::encode_utf8(value@),
            zero_index(bytes@) == i + zero_index(bytes@.skip(i as int)),
        decreases bytes@.len() - i,
    {
        assert(bytes@.skip(i as int).drop_first() =~= bytes@.skip(i + 1));
        if bytes[i] == 0 {
            let mut message = "nul byte found in provided data at position: ".to_owned();
            message.append(format_digits(i).as_str());
            return Err(Error::new(ErrorKind::InvalidData, message.as_str()));
        }
        i = i + 1;
    }
    Ok(())
}

/// What a function of the aeron client allocated. `failure` is what is said when the function failed, and `missing` when
/// it allocated nothing.
pub fn allocated<P>(result: i32, failure: &str, missing: &str, handle: Option<P>) -> (r: Result<P, Error>)
    ensures
        if result < 0 {
            crate::error::fails(r, ErrorKind::ConnectionRefused, failure@)
        } else {
            match handle {
                Some(handle) => r == Ok::<P, Error>(handle),
                None => crate::error::fails(r, ErrorKind::OutOfMemory, missing@),
            }
        },
{
    if result < 0 {
        return Err(Error::new(ErrorKind::ConnectionRefused, failure));
    }
    match handle {
        Some(handle) => Ok(handle),
        None => Err(Error::new(ErrorKind::OutOfMemory, missing)),
    }
}

/// What polling for a connection gave: nothing as long as there is none. `failure` is what is said when it failed.
pub fn polled<P>(result: i32, failure: &str, handle: Option<P>) -> (r: Result<Option<P>, Error>)
    ensures
        if result < 0 {
            crate::error::fails(r, ErrorKind::ConnectionRefused, failure@)
        } else {
            r == Ok::<Option<P>, Error>(handle)
        },
{
    if result < 0 {
        Err(Error::new(ErrorKind::ConnectionRefused, failure))
    } else {
        Ok(handle)
    }
}

/// How what a handle leads to is released.
pub enum Destructor<D> {
    /// Its memory is freed.
    Free,
    /// It is left alone, since it was released already.
    Forget,
    /// A function of the aeron client is called.
    Call(D),
}

/// A handle with what is to be done when it is dropped.
pub struct ManagedPtr<T, D> {
    data: Option<T>,
    drop_fn: Destructor<D>,
}

impl<T, D> ManagedPtr<T, D> {
    /// The handle.
    pub closed spec fn handle(&self) -> Option<T> {
        self.data
    }

    /// How what it leads to is released.
    pub closed spec fn destructor(&self) -> Destructor<D> {
        self.drop_fn
    }

    pub fn new(data: T) -> (r: Self)
        ensures
            r.handle() == Some(data),
            r.destructor() is Free,
    {
        Self { data: Some(data), drop_fn: Destructor::Free }
    }

    pub fn null() -> (r: Self)
        ensures
            r.handle() is None,
            r.destructor() is Free,
    {
        Self { data: None, drop_fn: Destructor::Free }
    }

    pub fn set_drop_fn<'a>(&'a mut self, drop_fn: Destructor<D>) -> (r: &'a Self)
        ensures
            final(self).handle() == old(self).handle(),
            final(self).destructor() == drop_fn,
            *r == *final(self),
    {
        self.drop_fn = drop_fn;
        self
    }

    pub fn with_drop_fn(self, drop_fn: Destructor<D>) -> (r: Self)
        ensures
            r.handle() == self.handle(),
            r.destructor() == drop_fn,
    {
        Self { data: self.data, drop_fn }
    }

    pub fn ptr(&self) -> (r: Option<&T>)
        ensures
            match self.handle() {
                Some(handle) => r == Some(&handle),
                None => r is None,
            },
    {
        match &self.data {
            Some(data) => Some(data),
            None => None,
        }
    }

    /// Take what is to be released. It can be taken once.
    pub fn release(&mut self) -> (r: Option<(T, Destructor<D>)>)
        ensures
            final(self).handle() is None,
            match old(self).handle() {
                Some(handle) => r == Some((handle, old(self).destructor())),
                None => r is None,
            },
    {
        let mut drop_fn: Destructor<D> = Destructor::Free;
        std::mem::swap(&mut drop_fn, &mut self.drop_fn);
        match self.data.take() {
            Some(data) => Some((data, drop_fn)),
            None => None,
        }
    }
}

/// A message received by a [`Subscription`] that is owned a cloneable
#[derive(Debug)]
pub struct OwnedMessage {
    pub term_offset: i32,
    pub session_id: i32,
    pub stream_id: i32,
    pub term_id: i32,
    pub reserved_value: i64,
    pub payload: Vec<u8>,
}

/// A message received by a [`Subscription`] whos data is referenced in a slice
#[derive(Debug)]
pub struct BorrowedMessage<'a> {
    pub term_offset: i32,
    pub session_id: i32,
    pub stream_id: i32,
    pub term_id: i32,
    pub reserved_value: i64,
    pub payload: &'a [u8],
}

/// A message as mathematical values.
#[verifier::ext_equal]
pub struct MessageView {
    pub term_offset: i32,
    pub session_id: i32,
    pub stream_id: i32,
    pub term_id: i32,
    pub reserved_value: i64,
    pub payload: Seq<u8>,
}

impl View for OwnedMessage {
    type V = MessageView;

    open spec fn view(&self) -> MessageView {
        MessageView {
            term_offset: self.term_offset,
            session_id: self.session_id,
            stream_id: self.stream_id,
            term_id: self.term_id,
            reserved_value: self.reserved_value,
            payload: self.payload@,
        }
    }
}

impl<'a> View for BorrowedMessage<'a> {
    type V = MessageView;

    open spec fn view(&self) -> MessageView {
        MessageView {
            term_offset: self.term_offset,
            session_id: self.session_id,
            stream_id: self.stream_id,
            term_id: self.term_id,
            reserved_value: self.reserved_value,
            payload: self.payload@,
        }
    }
}

impl Clone for OwnedMessage {
    fn clone(&self) -> (r: Self)
        ensures
            r@ == self@,
    {
        Self {
            term_offset: self.term_offset,
            session_id: self.session_id,
            stream_id: self.stream_id,
            term_id: self.term_id,
            reserved_value: self.reserved_value,
            payload: slice_to_vec(self.payload.as_slice()),
        }
    }
}

impl<'a> BorrowedMessage<'a> {
    /// Copy the message.
    pub fn to_owned(&self) -> (r: OwnedMessage)
        ensures
            r@ == self@,
    {
        OwnedMessage {
            term_offset: self.term_offset,
            session_id: self.session_id,
            stream_id: self.stream_id,
            term_id: self.term_id,
            reserved_value: self.reserved_value,
            payload: slice_to_vec(self.payload),
        }
    }
}

/// Used when images become available or unavailable
#[derive(Debug)]
pub struct ImageDetails {
    pub source_identity: Vec<u8>,
    pub correlation_id: i64,
    pub join_position: i64,
    pub position_bits_to_shift: usize,
    pub term_buffer_length: usize,
    pub mtu_length: usize,
    pub session_id: i32,
    pub initial_term_id: i32,
    pub subscriber_position_id: i32,
}

/// Marker trait for [`Publication`] and [`Subscription`]
pub trait AeronMarker {

}

/// The default marker trait on [`Publication`] or [`Subscription`] to publish or receive payload buffers.
pub struct Buffer;

impl AeronMarker for Buffer {

}

/// An optional marker trait on [`Publication`] or [`Subscription`] to publish a [`PublishMessage`] or receive an
/// [`OwnedMessage`].
pub struct Message;

impl AeronMarker for Message {

}

/// A buffer and reserved value, which can be published to a `Publication<Message>`
#[derive(Debug)]
pub struct PublishMessage<'a> {
    pub buffer: &'a [u8],
    pub reserved_value: i64,
}

/// What becomes of the messages of a subscription: they are queued until they are received, or given to a callback.
pub enum SubscriptionHandler<C> {
    Receiver(VecDeque<OwnedMessage>),
    Callback(C),
}

impl<C> SubscriptionHandler<C> {
    pub fn is_callback(&self) -> (r: bool)
        ensures
            r == (*self is Callback),
    {
        match self {
            Self::Receiver(_) => false,
            Self::Callback(_) => true,
        }
    }

    /// The messages that are queued, oldest first.
    pub open spec fn queued(&self) -> Seq<MessageView> {
        match self {
            SubscriptionHandler::Receiver(received) => received@.map_values(
                |message: OwnedMessage| message@,
            ),
            SubscriptionHandler::Callback(_) => Seq::empty(),
        }
    }
}

impl<C> SubscriptionHandler<C> where C: for<'a> Callback<BorrowedMessage<'a>> {
    /// Whether the callback may be given every message.
    pub open spec fn target_wf<'a>(callback: &C) -> bool {
        <C as Callback<BorrowedMessage<'a>>>::wf(callback)
    }

    /// Queue a message that was assembled, or give it to the callback.
    pub fn assembled<'a>(&mut self, message: BorrowedMessage<'a>)
        requires
            *old(self) matches SubscriptionHandler::Callback(callback) ==> Self::target_wf(&callback),
        ensures
            match *old(self) {
                SubscriptionHandler::Receiver(_) => {
                    &&& *final(self) is Receiver
                    &&& final(self).queued() == old(self).queued().push(message@)
                },
                SubscriptionHandler::Callback(callback) => {
                    &&& *final(self) matches SubscriptionHandler::Callback(post)
                    &&& callback.calls(message, &post)
                    &&& Self::target_wf(&post)
                },
            },
    {
        let ghost before = self.queued();
        match self {
            Self::Receiver(received) => {
                received.push_back(message.to_owned());
                assert(received@.map_values(|message: OwnedMessage| message@) =~= before.push(message@));
            },
            Self::Callback(callback) => callback.callback(message),
        }
    }
}

/// The connection of a [`Subscription`] or a [`Publication`]: `P` is a connection that is being made, and `S` one that was
/// made.
pub enum Connection<P, S> {
    Initialized,
    Connecting(P),
    Connected(S),
    Terminated,
}

impl<P, S> Connection<P, S> {
    /// The status of a session with this connection.
    pub open spec fn in_status(&self) -> SessionStatus {
        match self {
            Connection::Initialized => SessionStatus::Establishing,
            Connection::Connecting(_) => SessionStatus::Establishing,
            Connection::Connected(_) => SessionStatus::Established,
            Connection::Terminated => SessionStatus::Terminated,
        }
    }

    /// The status of a session with this connection.
    pub fn status(&self) -> (r: SessionStatus)
        ensures
            r == self.in_status(),
    {
        match self {
            Connection::Initialized => SessionStatus::Establishing,
            Connection::Connecting(_) => SessionStatus::Establishing,
            Connection::Connected(_) => SessionStatus::Established,
            Connection::Terminated => SessionStatus::Terminated,
        }
    }
}

/// What is to be done to drive a [`Subscription`] or a [`Publication`].
#[derive(Debug, Clone, Copy, PartialEq, Eq, Structural)]
pub enum AeronStep {
    /// Nothing is to be done.
    Done(DriveOutcome),
    /// Start to make a connection, and go on with `added`.
    Add,
    /// Poll the connection that is being made, and go on with `connection_polled`.
    PollConnection,
    /// Poll for messages, and go on with [`messages_polled`].
    PollMessages,
}

/// Messages were polled for, and `result` fragments were received. `failure` is what is said when it failed.
pub fn messages_polled(result: i32, failure: &str) -> (r: Result<DriveOutcome, Error>)
    ensures
        if result == 0 {
            r == Ok::<DriveOutcome, Error>(DriveOutcome::Idle)
        } else if result > 0 {
            r == Ok::<DriveOutcome, Error>(DriveOutcome::Active)
        } else {
            crate::error::fails(r, ErrorKind::Other, failure@)
        },
{
    if result == 0 {
        Ok(DriveOutcome::Idle)
    } else if result > 0 {
        Ok(DriveOutcome::Active)
    } else {
        Err(Error::new(ErrorKind::Other, failure))
    }
}

/// What is to be done to receive from a [`Subscription`].
pub enum ReceiveStep<T> {
    /// A message was queued.
    Payload(T),
    /// Poll for messages, handing each to [`SubscriptionHandler::assembled`], and go on with `received`.
    PollMessages,
}

/// An aeron subscription, which can either receive or act as a [`crate::Callback`].
///
/// ## Receive
///
/// A subscription acts as a receiver where assembled fragments are returned when it is received from.
///
/// A `Subscription<Buffer, ..>` receives `Vec<u8>` payloads. To receive other metadata associated with the payload,
/// instantiate a `Subscription<Message, ..>` to receive an [`OwnedMessage`] instead, which will contain the `stream_id`,
/// `reserved_value`, etc.
///
/// ## Callback
///
/// Callbacks can be used to handle copy-free aeron messages. This is done by utilizing [`Self::with_callback`].
/// When callback mode is enabled, receiving will fail with an error.
pub struct Subscription<T, P, S, C> {
    uri: String,
    stream_id: i32,
    fragment_limit: usize,
    connection: Connection<P, S>,
    handler: SubscriptionHandler<C>,
    _phantom: PhantomData<T>,
}

impl<T, P, S, C> Subscription<T, P, S, C> {
    /// The URI to subscribe to.
    pub closed spec fn channel(&self) -> Seq<char> {
        self.uri@
    }

    /// The stream to subscribe to.
    pub closed spec fn stream(&self) -> i32 {
        self.stream_id
    }

    /// The most fragments that are received at a time.
    pub closed spec fn limit(&self) -> usize {
        self.fragment_limit
    }

    /// The state of the connection.
    pub closed spec fn state(&self) -> Connection<P, S> {
        self.connection
    }

    /// What becomes of messages.
    pub closed spec fn target(&self) -> SubscriptionHandler<C> {
        self.handler
    }

    /// Whether everything but the connection and the handler is the same.
    pub open spec fn same_setup(&self, other: &Self) -> bool {
        &&& self.channel() == other.channel()
        &&& self.stream() == other.stream()
        &&& self.limit() == other.limit()
    }

    /// Create a new subscription
    pub fn new(uri: String, stream_id: i32) -> (r: Self)
        ensures
            r.channel() == uri@,
            r.stream() == stream_id,
            r.limit() == 10,
            r.state() is Initialized,
            r.target() is Receiver,
            r.target().queued() == Seq::<MessageView>::empty(),
    {
        let received: VecDeque<OwnedMessage> = VecDeque::new();
        assert(received@.map_values(|message: OwnedMessage| message@) =~= Seq::<MessageView>::empty());
        Self {
            uri,
            stream_id,
            fragment_limit: 10,
            connection: Connection::Initialized,
            handler: SubscriptionHandler::Receiver(received),
            _phantom: PhantomData,
        }
    }

    /// Override the default `fragment_limit` of 10
    pub fn with_fragment_limit(self, fragment_limit: usize) -> (r: Self)
        ensures
            r.limit() == fragment_limit,
            r.channel() == self.channel(),
            r.stream() == self.stream(),
            r.state() == self.state(),
            r.target() == self.target(),
    {
        let mut subscription = self;
        subscription.fragment_limit = fragment_limit;
        subscription
    }

    /// Use [`crate::Callback`] mode instead of receive mode, using the given callback when the subscription is driven.
    pub fn with_callback(self, callback: C) -> (r: Result<Self, Error>)
        ensures
            if self.state() is Initialized {
                &&& r matches Ok(subscription)
                &&& subscription.target() == SubscriptionHandler::Callback(callback)
                &&& subscription.state() is Initialized
                &&& subscription.same_setup(&self)
            } else {
                crate::error::fails(r, ErrorKind::Other, "callback must be set prior to connecting"@)
            },
    {
        match &self.connection {
            Connection::Initialized => {},
            _ => return Err(
                Error::new(ErrorKind::Other, "callback must be set prior to connecting"),
            ),
        }
        let mut subscription = self;
        subscription.handler = SubscriptionHandler::Callback(callback);
        Ok(subscription)
    }

    /// The URI to subscribe to.
    pub fn uri(&self) -> (r: &String)
        ensures
            r@ == self.channel(),
    {
        &self.uri
    }

    /// The stream to subscribe to.
    pub fn stream_id(&self) -> (r: i32)
        ensures
            r == self.stream(),
    {
        self.stream_id
    }

    /// The most fragments that are received at a time.
    pub fn fragment_limit(&self) -> (r: usize)
        ensures
            r == self.limit(),
    {
        self.fragment_limit
    }

    /// The connection.
    pub fn connection_mut(&mut self) -> (r: &mut Connection<P, S>)
        ensures
            *r == old(self).state(),
            final(self).state() == *final(r),
            final(self).target() == old(self).target(),
            final(self).same_setup(old(self)),
    {
        &mut self.connection
    }

    /// What becomes of messages.
    pub fn handler_mut(&mut self) -> (r: &mut SubscriptionHandler<C>)
        ensures
            *r == old(self).target(),
            final(self).target() == *final(r),
            final(self).state() == old(self).state(),
            final(self).same_setup(old(self)),
    {
        &mut self.handler
    }

    /// Check the current session status.
    pub fn status(&self) -> (r: SessionStatus)
        ensures
            r == self.state().in_status(),
    {
        self.connection.status()
    }

    /// Move to a [`SessionStatus::Terminated`] state immediately, and give the connection that is to be released.
    pub fn close(&mut self) -> (r: Connection<P, S>)
        ensures
            r == old(self).state(),
            final(self).state() is Terminated,
            final(self).target() == old(self).target(),
            final(self).same_setup(old(self)),
    {
        let mut connection: Connection<P, S> = Connection::Terminated;
        std::mem::swap(&mut connection, &mut self.connection);
        connection
    }

    /// What is to be done to drive the subscription.
    pub fn begin_drive(&self) -> (r: Result<AeronStep, Error>)
        ensures
            match self.state() {
                Connection::Initialized => {
                    let bytes = vstd::utf8::encode_utf8(self.channel());
                    if zero_index(bytes) < bytes.len() {
                        crate::error::fails(
                            r,
                            ErrorKind::InvalidData,
                            "nul byte found in provided data at position: "@
                                + crate::http::decimal::digits(zero_index(bytes)),
                        )
                    } else {
                        r == Ok::<AeronStep, Error>(AeronStep::Add)
                    }
                },
                Connection::Connecting(_) => r == Ok::<AeronStep, Error>(AeronStep::PollConnection),
                Connection::Connected(_) => r == Ok::<AeronStep, Error>(
                    if self.target() is Callback {
                        AeronStep::PollMessages
                    } else {
                        AeronStep::Done(DriveOutcome::Idle)
                    },
                ),
                Connection::Terminated => crate::error::fails(
                    r,
                    ErrorKind::NotConnected,
                    "not connected"@,
                ),
            },
    {
        match &self.connection {
            Connection::Initialized => {
                check_text(self.uri.as_str())?;
                Ok(AeronStep::Add)
            },
            Connection::Connecting(_) => Ok(AeronStep::PollConnection),
            Connection::Connected(_) => {
                if self.handler.is_callback() {
                    Ok(AeronStep::PollMessages)
                } else {
                    Ok(AeronStep::Done(DriveOutcome::Idle))
                }
            },
            Connection::Terminated => Err(Error::new(ErrorKind::NotConnected, "not connected")),
        }
    }

    /// It was tried to start making a connection, which gave that result and handle. `failure` is what is said when it
    /// failed; it may then be tried again.
    pub fn added(&mut self, result: i32, failure: &str, handle: Option<P>) -> (r: Result<
        DriveOutcome,
        Error,
    >)
        ensures
            final(self).same_setup(old(self)),
            final(self).target() == old(self).target(),
            if result < 0 {
                &&& crate::error::fails(r, ErrorKind::ConnectionRefused, failure@)
                &&& final(self).state() == old(self).state()
            } else {
                match handle {
                    Some(x) => {
                        &&& r == Ok::<DriveOutcome, Error>(DriveOutcome::Active)
                        &&& final(self).state() == Connection::<P, S>::Connecting(x)
                    },
                    None => {
                        &&& crate::error::fails(
                            r,
                            ErrorKind::OutOfMemory,
                            "aeron_async_add_subscription did not allocate"@,
                        )
                        &&& final(self).state() == old(self).state()
                    },
                }
            },
    {
        let x = allocated(
            result,
            failure,
            "aeron_async_add_subscription did not allocate",
            handle,
        )?;
        self.connection = Connection::Connecting(x);
        Ok(DriveOutcome::Active)
    }

    /// The connection was polled. When a handle is given back, what assembles fragments is to be created for it, and the
    /// subscription goes on with [`Subscription::connected`]; when none is, there was nothing to do. `failure` is what is
    /// said when polling failed; it may then be polled again.
    pub fn connection_polled<X>(&mut self, result: i32, failure: &str, handle: Option<X>) -> (r: Result<
        Option<X>,
        Error,
    >)
        ensures
            *final(self) == *old(self),
            if result < 0 {
                crate::error::fails(r, ErrorKind::ConnectionRefused, failure@)
            } else {
                r == Ok::<Option<X>, Error>(handle)
            },
    {
        polled(result, failure, handle)
    }

    /// The connection was made, and it was tried to create what assembles fragments, which gave that result and handle.
    /// When that failed, the subscription stays as it is, and `failure` is what is said. What was being made is released
    /// already, so that polling it again fails.
    pub fn connected(&mut self, result: i32, failure: &str, handle: Option<S>) -> (r: Result<
        DriveOutcome,
        Error,
    >)
        ensures
            final(self).same_setup(old(self)),
            final(self).target() == old(self).target(),
            if result < 0 {
                &&& crate::error::fails(r, ErrorKind::ConnectionRefused, failure@)
                &&& final(self).state() == old(self).state()
            } else {
                match handle {
                    Some(x) => {
                        &&& r == Ok::<DriveOutcome, Error>(DriveOutcome::Active)
                        &&& final(self).state() == Connection::<P, S>::Connected(x)
                    },
                    None => {
                        &&& crate::error::fails(
                            r,
                            ErrorKind::OutOfMemory,
                            "aeron_fragment_assembler_create did not allocate"@,
                        )
                        &&& final(self).state() == old(self).state()
                    },
                }
            },
    {
        let x = allocated(
            result,
            failure,
            "aeron_fragment_assembler_create did not allocate",
            handle,
        )?;
        self.connection = Connection::Connected(x);
        Ok(DriveOutcome::Active)
    }

    /// Whether taking the oldest message may lead to `post`, where nothing is taken when there is none.
    pub open spec fn takes_oldest(&self, post: &Self, taken: Option<MessageView>) -> bool {
        &&& post.same_setup(self)
        &&& post.state() == self.state()
        &&& post.target() is Receiver
        &&& if self.target().queued().len() == 0 {
            taken is None && post.target().queued() == self.target().queued()
        } else {
            &&& taken == Some(self.target().queued()[0])
            &&& post.target().queued() == self.target().queued().drop_first()
        }
    }

    fn pop_message(&mut self) -> (r: Option<OwnedMessage>)
        requires
            old(self).target() is Receiver,
        ensures
            old(self).takes_oldest(
                final(self),
                match r {
                    Some(message) => Some(message@),
                    None => None,
                },
            ),
    {
        let ghost before = self.handler.queued();
        match &mut self.handler {
            SubscriptionHandler::Receiver(received) => {
                let r = received.pop_front();
                assert(before.len() > 0 ==> received@.map_values(|message: OwnedMessage| message@)
                    =~= before.drop_first());
                r
            },
            SubscriptionHandler::Callback(_) => vstd::pervasive::unreached(),
        }
    }

    /// Take the oldest message that is queued, or say that messages are to be polled for.
    pub fn begin_receive_message(&mut self) -> (r: Result<ReceiveStep<OwnedMessage>, Error>)
        ensures
            if !(old(self).state() is Connected) {
                &&& crate::error::fails(r, ErrorKind::NotConnected, "not connected"@)
                &&& *final(self) == *old(self)
            } else if old(self).target() is Callback {
                &&& crate::error::fails(
                    r,
                    ErrorKind::Other,
                    "subscription is configured for callback mode, polling receive is not enabled"@,
                )
                &&& *final(self) == *old(self)
            } else {
                match r {
                    Ok(ReceiveStep::Payload(message)) => old(self).takes_oldest(
                        final(self),
                        Some(message@),
                    ),
                    Ok(ReceiveStep::PollMessages) => old(self).takes_oldest(final(self), None),
                    Err(_) => false,
                }
            },
    {
        match &self.connection {
            Connection::Connected(_) => {},
            _ => return Err(Error::new(ErrorKind::NotConnected, "not connected")),
        }
        if self.handler.is_callback() {
            return Err(
                Error::new(
                    ErrorKind::Other,
                    "subscription is configured for callback mode, polling receive is not enabled",
                ),
            );
        }
        match self.pop_message() {
            Some(message) => Ok(ReceiveStep::Payload(message)),
            None => Ok(ReceiveStep::PollMessages),
        }
    }

    /// Messages were polled for, and the result was `result`. `failure` is what is said when it failed. Take the oldest
    /// message that is queued now.
    pub fn received_message(&mut self, result: i32, failure: &str) -> (r: Result<
        ReceiveOutcome<OwnedMessage>,
        Error,
    >)
        requires
            old(self).target() is Receiver,
        ensures
            if result < 0 {
                crate::error::fails(r, ErrorKind::Other, failure@) && *final(self) == *old(self)
            } else {
                match r {
                    Ok(ReceiveOutcome::Payload(message)) => old(self).takes_oldest(
                        final(self),
                        Some(message@),
                    ),
                    Ok(ReceiveOutcome::Idle) => old(self).takes_oldest(final(self), None),
                    _ => false,
                }
            },
    {
        if result < 0 {
            return Err(Error::new(ErrorKind::Other, failure));
        }
        match self.pop_message() {
            None => Ok(ReceiveOutcome::Idle),
            Some(x) => Ok(ReceiveOutcome::Payload(x)),
        }
    }
}

/// Messages are received in the order in which they were assembled: a message that is assembled while others are queued
/// goes behind them, and the oldest is taken first.
pub proof fn messages_are_received_in_order<T, P, S, C>(
    before: Subscription<T, P, S, C>,
    message: MessageView,
    assembled: Subscription<T, P, S, C>,
    post: Subscription<T, P, S, C>,
    taken: Option<MessageView>,
)
    requires
        assembled.target().queued() == before.target().queued().push(message),
        assembled.takes_oldest(&post, taken),
    ensures
        taken == Some(
            if before.target().queued().len() == 0 {
                message
            } else {
                before.target().queued()[0]
            },
        ),
        before.target().queued().len() > 0 ==> post.target().queued()
            == before.target().queued().drop_first().push(message),
        before.target().queued().len() == 0 ==> post.target().queued() == Seq::<MessageView>::empty(),
{
    let queued = before.target().queued();
    if queued.len() > 0 {
        assert(queued.push(message).drop_first() =~= queued.drop_first().push(message));
    } else {
        assert(queued.push(message).drop_first() =~= Seq::<MessageView>::empty());
    }
}

/// The outcome of receiving from a `Subscription<Buffer, ..>`: the payload of the message.
pub fn payload_outcome(outcome: ReceiveOutcome<OwnedMessage>) -> (r: ReceiveOutcome<Vec<u8>>)
    ensures
        match outcome {
            ReceiveOutcome::Payload(message) => r == ReceiveOutcome::Payload(message.payload),
            ReceiveOutcome::Buffered => r is Buffered,
            ReceiveOutcome::Idle => r is Idle,
        },
{
    match outcome {
        ReceiveOutcome::Payload(message) => ReceiveOutcome::Payload(message.payload),
        ReceiveOutcome::Buffered => ReceiveOutcome::Buffered,
        ReceiveOutcome::Idle => ReceiveOutcome::Idle,
    }
}

/// An aeron publication, which can be used to send messages to the given `uri` and `stream_id`.
///
/// ## Reserved Value
///
/// A `Publication<Buffer, ..>` publishes `&[u8]` slices. To provide a "reserved value" to be published in the aeron
/// header, instantiate a `Publication<Message, ..>`, which will publish a [`PublishMessage`] instead, where a reserved
/// value can be provided alongside the payload slice.
pub struct Publication<T, P, S> {
    uri: String,
    stream_id: i32,
    connection: Connection<P, S>,
    _phantom: PhantomData<T>,
}

impl<T, P, S> Publication<T, P, S> {
    /// The URI to publish to.
    pub closed spec fn channel(&self) -> Seq<char> {
        self.uri@
    }

    /// The stream to publish to.
    pub closed spec fn stream(&self) -> i32 {
        self.stream_id
    }

    /// The state of the connection.
    pub closed spec fn state(&self) -> Connection<P, S> {
        self.connection
    }

    /// Whether everything but the connection is the same.
    pub open spec fn same_setup(&self, other: &Self) -> bool {
        self.channel() == other.channel() && self.stream() == other.stream()
    }

    /// Create a new publication
    pub fn new(uri: String, stream_id: i32) -> (r: Self)
        ensures
            r.channel() == uri@,
            r.stream() == stream_id,
            r.state() is Initialized,
    {
        Self { uri, stream_id, connection: Connection::Initialized, _phantom: PhantomData }
    }

    /// The URI to publish to.
    pub fn uri(&self) -> (r: &String)
        ensures
            r@ == self.channel(),
    {
        &self.uri
    }

    /// The stream to publish to.
    pub fn stream_id(&self) -> (r: i32)
        ensures
            r == self.stream(),
    {
        self.stream_id
    }

    /// The connection.
    pub fn connection_mut(&mut self) -> (r: &mut Connection<P, S>)
        ensures
            *r == old(self).state(),
            final(self).state() == *final(r),
            final(self).same_setup(old(self)),
    {
        &mut self.connection
    }

    /// Check the current session status.
    pub fn status(&self) -> (r: SessionStatus)
        ensures
            r == self.state().in_status(),
    {
        self.connection.status()
    }

    /// Move to a [`SessionStatus::Terminated`] state immediately, and give the connection that is to be released.
    pub fn close(&mut self) -> (r: Connection<P, S>)
        ensures
            r == old(self).state(),
            final(self).state() is Terminated,
            final(self).same_setup(old(self)),
    {
        let mut connection: Connection<P, S> = Connection::Terminated;
        std::mem::swap(&mut connection, &mut self.connection);
        connection
    }

    /// What is to be done to drive the publication.
    pub fn begin_drive(&self) -> (r: Result<AeronStep, Error>)
        ensures
            match self.state() {
                Connection::Initialized => {
                    let bytes = vstd::utf8::encode_utf8(self.channel());
                    if zero_index(bytes) < bytes.len() {
                        crate::error::fails(
                            r,
                            ErrorKind::InvalidData,
                            "nul byte found in provided data at position: "@
                                + crate::http::decimal::digits(zero_index(bytes)),
                        )
                    } else {
                        r == Ok::<AeronStep, Error>(AeronStep::Add)
                    }
                },
                Connection::Connecting(_) => r == Ok::<AeronStep, Error>(AeronStep::PollConnection),
                Connection::Connected(_) => r == Ok::<AeronStep, Error>(
                    AeronStep::Done(DriveOutcome::Idle),
                ),
                Connection::Terminated => crate::error::fails(
                    r,
                    ErrorKind::NotConnected,
                    "not connected"@,
                ),
            },
    {
        match &self.connection {
            Connection::Initialized => {
                check_text(self.uri.as_str())?;
                Ok(AeronStep::Add)
            },
            Connection::Connecting(_) => Ok(AeronStep::PollConnection),
            Connection::Connected(_) => Ok(AeronStep::Done(DriveOutcome::Idle)),
            Connection::Terminated => Err(Error::new(ErrorKind::NotConnected, "not connected")),
        }
    }

    /// It was tried to start making a connection, which gave that result and handle. When that failed, it may be tried
    /// again.
    pub fn added(&mut self, result: i32, handle: Option<P>) -> (r: Result<DriveOutcome, Error>)
        ensures
            final(self).same_setup(old(self)),
            if result < 0 {
                &&& crate::error::fails(
                    r,
                    ErrorKind::ConnectionRefused,
                    "aeron_async_add_publication error: "@ + signed_digits(result),
                )
                &&& final(self).state() == old(self).state()
            } else {
                match handle {
                    Some(x) => {
                        &&& r == Ok::<DriveOutcome, Error>(DriveOutcome::Active)
                        &&& final(self).state() == Connection::<P, S>::Connecting(x)
                    },
                    None => {
                        &&& crate::error::fails(
                            r,
                            ErrorKind::OutOfMemory,
                            "aeron_async_add_publication did not allocate"@,
                        )
                        &&& final(self).state() == old(self).state()
                    },
                }
            },
    {
        let mut failure = "aeron_async_add_publication error: ".to_owned();
        failure.append(format_signed(result).as_str());
        let x = allocated(
            result,
            failure.as_str(),
            "aeron_async_add_publication did not allocate",
            handle,
        )?;
        self.connection = Connection::Connecting(x);
        Ok(DriveOutcome::Active)
    }

    /// The connection was polled; no handle is given as long as it is being made. `failure` is what is said when that
    /// failed; it may then be polled again.
    pub fn connection_polled(&mut self, result: i32, failure: &str, handle: Option<S>) -> (r: Result<
        DriveOutcome,
        Error,
    >)
        ensures
            final(self).same_setup(old(self)),
            if result < 0 {
                &&& crate::error::fails(r, ErrorKind::ConnectionRefused, failure@)
                &&& final(self).state() == old(self).state()
            } else {
                match handle {
                    Some(x) => {
                        &&& r == Ok::<DriveOutcome, Error>(DriveOutcome::Active)
                        &&& final(self).state() == Connection::<P, S>::Connected(x)
                    },
                    None => {
                        &&& r == Ok::<DriveOutcome, Error>(DriveOutcome::Idle)
                        &&& final(self).state() == old(self).state()
                    },
                }
            },
    {
        match polled(result, failure, handle)? {
            Some(x) => {
                self.connection = Connection::Connected(x);
                Ok(DriveOutcome::Active)
            },
            None => Ok(DriveOutcome::Idle),
        }
    }

    /// The connection to offer a payload to. What came of it is handed to [`Publication::map_result`].
    pub fn begin_publish(&self) -> (r: Result<&S, Error>)
        ensures
            match self.state() {
                Connection::Connected(x) => r == Ok::<&S, Error>(&x),
                _ => crate::error::fails(r, ErrorKind::NotConnected, "not connected"@),
            },
    {
        match &self.connection {
            Connection::Connected(x) => Ok(x),
            _ => Err(Error::new(ErrorKind::NotConnected, "not connected")),
        }
    }

    /// The outcome of offering a payload, which gave the new position of the publication or a negative code.
    ///
    /// Of a code the lower 32 bits count. A publication without consumers takes every payload.
    pub fn map_result<I>(payload: I, result: i64) -> (r: Result<PublishOutcome<I>, Error>)
        ensures
            if result >= 0 {
                r == Ok::<PublishOutcome<I>, Error>(PublishOutcome::Published)
            } else {
                let code = result as i32;
                if code == PUBLICATION_NOT_CONNECTED {
                    r == Ok::<PublishOutcome<I>, Error>(PublishOutcome::Published)
                } else if code == PUBLICATION_BACK_PRESSURED || code == PUBLICATION_ADMIN_ACTION {
                    r == Ok::<PublishOutcome<I>, Error>(PublishOutcome::Incomplete(payload))
                } else if code == PUBLICATION_CLOSED {
                    crate::error::fails(
                        r,
                        ErrorKind::ConnectionReset,
                        "aeron_publication_offer error: AERON_PUBLICATION_CLOSED"@,
                    )
                } else if code == PUBLICATION_MAX_POSITION_EXCEEDED {
                    crate::error::fails(
                        r,
                        ErrorKind::Other,
                        "aeron_publication_offer error: AERON_PUBLICATION_MAX_POSITION_EXCEEDED"@,
                    )
                } else if code == PUBLICATION_ERROR {
                    crate::error::fails(
                        r,
                        ErrorKind::Other,
                        "aeron_publication_offer error: AERON_PUBLICATION_ERROR"@,
                    )
                } else {
                    crate::error::fails(
                        r,
                        ErrorKind::Other,
                        "aeron_publication_offer error: "@ + signed_digits(code),
                    )
                }
            },
    {
        if result >= 0 {
            return Ok(PublishOutcome::Published);
        }
        let code: i32 = #[verifier::truncate] (result as i32);
        if code == PUBLICATION_NOT_CONNECTED {
            // no one to consume, normal flow
            Ok(PublishOutcome::Published)
        } else if code == PUBLICATION_BACK_PRESSURED || code == PUBLICATION_ADMIN_ACTION {
            Ok(PublishOutcome::Incomplete(payload))
        } else if code == PUBLICATION_CLOSED {
            Err(
                Error::new(
                    ErrorKind::ConnectionReset,
                    "aeron_publication_offer error: AERON_PUBLICATION_CLOSED",
                ),
            )
        } else if code == PUBLICATION_MAX_POSITION_EXCEEDED {
            Err(
                Error::new(
                    ErrorKind::Other,
                    "aeron_publication_offer error: AERON_PUBLICATION_MAX_POSITION_EXCEEDED",
                ),
            )
        } else if code == PUBLICATION_ERROR {
            Err(
                Error::new(
                    ErrorKind::Other,
                    "aeron_publication_offer error: AERON_PUBLICATION_ERROR",
                ),
            )
        } else {
            let mut message = "aeron_publication_offer error: ".to_owned();
            message.append(format_signed(code).as_str());
            Err(Error::new(ErrorKind::Other, message.as_str()))
        }
    }
}

/// The decimal digits of a number as characters, behind a minus sign when it is negative.
pub open spec fn signed_digits(n: i32) -> Seq<char> {
    if n < 0 {
        "-"@ + crate::http::decimal::digits((-n) as nat)
    } else {
        crate::http::decimal::digits(n as nat)
    }
}

fn format_signed(n: i32) -> (r: String)
    ensures
        r@ == signed_digits(n),
{
    if n < 0 {
        let mut text = "-".to_owned();
        let size: i64 = -(n as i64);
        text.append(format_digits(size as usize).as_str());
        text
    } else {
        format_digits(n as usize)
    }
}

/// The first zero byte of a text is where all bytes before it are not zero; without one there is none at the number of
/// bytes.
pub proof fn zero_byte_is_first(bytes: Seq<u8>)
    ensures
        zero_index(bytes) <= bytes.len(),
        zero_index(bytes) < bytes.len() ==> bytes[zero_index(bytes) as int] == 0,
        forall|i: int| 0 <= i < zero_index(bytes) ==> #[trigger] bytes[i] != 0,
    decreases bytes.len(),
{
    if bytes.len() > 0 && bytes[0] != 0 {
        zero_byte_is_first(bytes.drop_first());
        assert forall|i: int| 0 <= i < zero_index(bytes) implies #[trigger] bytes[i] != 0 by {
            if i > 0 {
                assert(bytes[i] == bytes.drop_first()[i - 1]);
            }
        }
    }
}

/// A negative number is shown as a minus sign and the digits of its size, and any other as its digits.
pub proof fn sign_is_shown(n: i32)
    ensures
        n >= 0 ==> signed_digits(n) == crate::http::decimal::digits(n as nat),
        n < 0 ==> signed_digits(n)[0] == '-' && signed_digits(n).skip(1) == crate::http::decimal::digits((-n) as nat),
{
    reveal_strlit("-");
    if n < 0 {
        assert(signed_digits(n).skip(1) =~= crate::http::decimal::digits((-n) as nat));
    }
}

/// A session is established when its connection was made, terminated when it was closed, and establishing before that.
pub proof fn status_follows_connection<P, S>(connection: Connection<P, S>)
    ensures
        connection is Connected <==> connection.in_status() == SessionStatus::Established,
        connection is Terminated <==> connection.in_status() == SessionStatus::Terminated,
        connection is Initialized || connection is Connecting <==> connection.in_status()
            == SessionStatus::Establishing,
{
}

/// The oldest message that is queued is taken, once, and the others stay in their order. Nothing is taken when there is
/// none, and nothing else changes.
pub proof fn oldest_message_is_taken<T, P, S, C>(
    pre: Subscription<T, P, S, C>,
    post: Subscription<T, P, S, C>,
    taken: Option<MessageView>,
)
    requires
        pre.takes_oldest(&post, taken),
    ensures
        match taken {
            Some(message) => pre.target().queued() == seq![message] + post.target().queued(),
            None => pre.target().queued().len() == 0 && post.target().queued().len() == 0,
        },
        post.state() == pre.state(),
        post.channel() == pre.channel(),
        post.stream() == pre.stream(),
        post.limit() == pre.limit(),
{
    if let Some(message) = taken {
        assert(pre.target().queued() =~= seq![message] + post.target().queued());
    }
}

/// A message keeps all that it was received with, copied or not, and what is queued is what was received.
pub proof fn message_is_its_parts<C>(
    owned: OwnedMessage,
    borrowed: BorrowedMessage,
    queue: VecDeque<OwnedMessage>,
    callback: C,
    i: int,
)
    ensures
        owned@.payload == owned.payload@,
        owned@.term_offset == owned.term_offset,
        owned@.session_id == owned.session_id,
        owned@.stream_id == owned.stream_id,
        owned@.term_id == owned.term_id,
        owned@.reserved_value == owned.reserved_value,
        borrowed@.payload == borrowed.payload@,
        borrowed@.term_offset == borrowed.term_offset,
        borrowed@.session_id == borrowed.session_id,
        borrowed@.stream_id == borrowed.stream_id,
        borrowed@.term_id == borrowed.term_id,
        borrowed@.reserved_value == borrowed.reserved_value,
        SubscriptionHandler::<C>::Receiver(queue).queued().len() == queue@.len(),
        0 <= i < queue@.len() ==> SubscriptionHandler::<C>::Receiver(queue).queued()[i] == queue@[i]@,
        SubscriptionHandler::Callback(callback).queued().len() == 0,
{
}

/// Subscriptions and publications of the same setup are for the same stream of the same channel.
pub proof fn same_setup_is_the_same<T, P, S, C>(
    subscription: Subscription<T, P, S, C>,
    other: Subscription<T, P, S, C>,
    publication: Publication<T, P, S>,
    other_publication: Publication<T, P, S>,
)
    requires
        subscription.same_setup(&other),
        publication.same_setup(&other_publication),
    ensures
        subscription.channel() == other.channel(),
        subscription.stream() == other.stream(),
        subscription.limit() == other.limit(),
        publication.channel() == other_publication.channel(),
        publication.stream() == other_publication.stream(),
{
}

} // verus!
