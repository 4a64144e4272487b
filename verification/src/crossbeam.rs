//! Sessions over crossbeam channels
use crossbeam_channel::{Receiver, Sender, TryRecvError, TrySendError};
use vstd::prelude::*;

use crate::error::{Error, ErrorKind};
use crate::{
    DriveOutcome, Publish, PublishOutcome, Receive, ReceiveOutcome, Session, SessionStatus,
};

verus! {

/// The sending side of a crossbeam channel.
#[verifier::external_type_specification]
#[verifier::external_body]
#[verifier::reject_recursive_types(T)]
pub struct ExSender<T>(Sender<T>);

/// The receiving side of a crossbeam channel.
#[verifier::external_type_specification]
#[verifier::external_body]
#[verifier::reject_recursive_types(T)]
pub struct ExReceiver<T>(Receiver<T>);

/// What came of sending to a channel.
pub enum Sent<T> {
    /// The channel took the payload.
    Taken,
    /// The channel is full, and gives the payload back.
    Full(T),
    /// There is no receiver, and the payload is given back.
    Disconnected(T),
}

/// What came of receiving from a channel.
pub enum Received<T> {
    /// The channel gave a payload.
    Payload(T),
    /// The channel is empty.
    Empty,
    /// The channel is empty, and there is no sender.
    Disconnected,
}

/// [`Sender::try_send`] sends a payload, or gives it back. Which of them happens depends on what the receivers and the
/// other senders do.
#[verifier::external_body]
fn try_send<T>(sender: &Sender<T>, payload: T) -> (r: Sent<T>)
    ensures
        r matches Sent::Full(x) ==> x == payload,
        r matches Sent::Disconnected(x) ==> x == payload,
{
    match sender.try_send(payload) {
        Ok(()) => Sent::Taken,
        Err(TrySendError::Full(x)) => Sent::Full(x),
        Err(TrySendError::Disconnected(x)) => Sent::Disconnected(x),
    }
}

/// [`Receiver::try_recv`] receives a payload if there is one. What it receives depends on what the senders and the other
/// receivers do.
#[verifier::external_body]
fn try_recv<T>(receiver: &Receiver<T>) -> (r: Received<T>) {
    match receiver.try_recv() {
        Ok(x) => Received::Payload(x),
        Err(TryRecvError::Empty) => Received::Empty,
        Err(TryRecvError::Disconnected) => Received::Disconnected,
    }
}

/// Whether `sent` may come of sending `payload` by [`Sender::try_send`] of that sender.
pub closed spec fn may_come_of_sending<T>(sender: &Sender<T>, payload: T, sent: Sent<T>) -> bool {
    call_ensures(try_send::<T>, (sender, payload), sent)
}

/// Send a payload by the given function.
fn send_by<T, F: Fn(&Sender<T>, T) -> Sent<T>>(f: F, sender: &Sender<T>, payload: T) -> (r: Sent<T>)
    requires
        call_requires(f, (sender, payload)),
    ensures
        call_ensures(f, (sender, payload), r),
{
    f(sender, payload)
}

/// Whether `received` may come of [`Receiver::try_recv`] of that receiver.
pub closed spec fn may_come_of_receiving<T>(receiver: &Receiver<T>, received: Received<T>) -> bool {
    call_ensures(try_recv::<T>, (receiver,), received)
}

/// Receive by the given function.
fn receive_by<T, F: Fn(&Receiver<T>) -> Received<T>>(f: F, receiver: &Receiver<T>) -> (r: Received<T>)
    requires
        call_requires(f, (receiver,)),
    ensures
        call_ensures(f, (receiver,), r),
{
    f(receiver)
}

/// What is reported of sending to a channel: a session is established also without a receiver, so that a payload that
/// nobody can receive is reported as published.
pub open spec fn publish_outcome_of<T>(sent: Sent<T>) -> PublishOutcome<T> {
    match sent {
        Sent::Taken => PublishOutcome::Published,
        Sent::Disconnected(_) => PublishOutcome::Published,
        Sent::Full(x) => PublishOutcome::Incomplete(x),
    }
}

/// What is reported of sending to a channel.
pub fn publish_outcome<T>(sent: Sent<T>) -> (r: PublishOutcome<T>)
    ensures
        r == publish_outcome_of(sent),
{
    // status is `Established`, so when there is no receiver, report as `Published`
    match sent {
        Sent::Taken => PublishOutcome::Published,
        Sent::Disconnected(_) => PublishOutcome::Published,
        Sent::Full(x) => PublishOutcome::Incomplete(x),
    }
}

/// What is reported of receiving from a channel: a session is established also without a sender, so that it is then
/// reported as idle.
pub open spec fn receive_outcome_of<T>(received: Received<T>) -> ReceiveOutcome<T> {
    match received {
        Received::Payload(x) => ReceiveOutcome::Payload(x),
        Received::Empty => ReceiveOutcome::Idle,
        Received::Disconnected => ReceiveOutcome::Idle,
    }
}

/// What is reported of receiving from a channel.
pub fn receive_outcome<T>(received: Received<T>) -> (r: ReceiveOutcome<T>)
    ensures
        r == receive_outcome_of(received),
{
    // status is `Established`, so when there is no sender, report as `Idle`
    match received {
        Received::Payload(x) => ReceiveOutcome::Payload(x),
        Received::Empty => ReceiveOutcome::Idle,
        Received::Disconnected => ReceiveOutcome::Idle,
    }
}

/// A session that publishes to a channel. It is established until it is closed, which drops the sender.
#[verifier::reject_recursive_types(T)]
pub struct ChannelSender<T> {
    sender: Option<Sender<T>>,
}

impl<T> ChannelSender<T> {
    /// The sender, until the session is closed.
    pub closed spec fn channel(&self) -> Option<Sender<T>> {
        self.sender
    }

    /// Publish to the channel.
    pub fn new(sender: Sender<T>) -> (r: Self)
        ensures
            r.channel() == Some(sender),
    {
        Self { sender: Some(sender) }
    }
}

impl<T: 'static> Session for ChannelSender<T> {
    open spec fn wf(&self) -> bool {
        true
    }

    open spec fn in_status(&self) -> SessionStatus {
        if self.channel() is Some {
            SessionStatus::Established
        } else {
            SessionStatus::Terminated
        }
    }

    open spec fn closes(&self, post: &Self) -> bool {
        post.channel() is None
    }

    open spec fn drives(&self, post: &Self, r: Result<DriveOutcome, Error>) -> bool {
        *post == *self && r == Ok::<DriveOutcome, Error>(DriveOutcome::Idle)
    }

    fn status(&self) -> SessionStatus {
        if self.sender.is_some() {
            SessionStatus::Established
        } else {
            SessionStatus::Terminated
        }
    }

    fn close(&mut self) {
        self.sender = None;
    }

    fn drive(&mut self) -> Result<DriveOutcome, Error> {
        Ok(DriveOutcome::Idle)
    }
}

impl<T: 'static> Publish for ChannelSender<T> {
    type PublishPayload<'a> = T;

    open spec fn publishes<'a>(
        &self,
        payload: Self::PublishPayload<'a>,
        post: &Self,
        r: Result<PublishOutcome<Self::PublishPayload<'a>>, Error>,
    ) -> bool {
        &&& *post == *self
        &&& if self.channel() is None {
            crate::error::fails(r, ErrorKind::NotConnected, "not connected"@)
        } else {
            &&& exists|sent: Sent<T>| #[trigger]
                may_come_of_sending(&self.channel()->0, payload, sent) && r == Ok::<
                    PublishOutcome<T>,
                    Error,
                >(publish_outcome_of(sent))
            &&& r matches Ok(PublishOutcome::Incomplete(x)) ==> x == payload
        }
    }

    fn publish<'a>(&mut self, payload: Self::PublishPayload<'a>) -> Result<
        PublishOutcome<Self::PublishPayload<'a>>,
        Error,
    > {
        match &self.sender {
            None => Err(Error::new(ErrorKind::NotConnected, "not connected")),
            Some(sender) => {
                let sent = send_by(try_send::<T>, sender, payload);
                assert(may_come_of_sending(sender, payload, sent));
                Ok(publish_outcome(sent))
            },
        }
    }
}

/// A session that receives from a channel. It is established until it is closed, which drops the receiver.
#[verifier::reject_recursive_types(T)]
pub struct ChannelReceiver<T> {
    receiver: Option<Receiver<T>>,
}

impl<T> ChannelReceiver<T> {
    /// The receiver, until the session is closed.
    pub closed spec fn channel(&self) -> Option<Receiver<T>> {
        self.receiver
    }

    /// Receive from the channel.
    pub fn new(receiver: Receiver<T>) -> (r: Self)
        ensures
            r.channel() == Some(receiver),
    {
        Self { receiver: Some(receiver) }
    }
}

impl<T: 'static> Session for ChannelReceiver<T> {
    open spec fn wf(&self) -> bool {
        true
    }

    open spec fn in_status(&self) -> SessionStatus {
        if self.channel() is Some {
            SessionStatus::Established
        } else {
            SessionStatus::Terminated
        }
    }

    open spec fn closes(&self, post: &Self) -> bool {
        post.channel() is None
    }

    open spec fn drives(&self, post: &Self, r: Result<DriveOutcome, Error>) -> bool {
        *post == *self && r == Ok::<DriveOutcome, Error>(DriveOutcome::Idle)
    }

    fn status(&self) -> SessionStatus {
        if self.receiver.is_some() {
            SessionStatus::Established
        } else {
            SessionStatus::Terminated
        }
    }

    fn close(&mut self) {
        self.receiver = None;
    }

    fn drive(&mut self) -> Result<DriveOutcome, Error> {
        Ok(DriveOutcome::Idle)
    }
}

impl<T: 'static> Receive for ChannelReceiver<T> {
    type ReceivePayload<'a> = T;

    open spec fn receives<'a>(
        &self,
        post: &Self,
        r: Result<ReceiveOutcome<Self::ReceivePayload<'a>>, Error>,
    ) -> bool {
        &&& *post == *self
        &&& if self.channel() is None {
            crate::error::fails(r, ErrorKind::NotConnected, "not connected"@)
        } else {
            exists|received: Received<T>| #[trigger]
                may_come_of_receiving(&self.channel()->0, received) && r == Ok::<
                    ReceiveOutcome<T>,
                    Error,
                >(receive_outcome_of(received))
        }
    }

    fn receive<'a>(&'a mut self) -> Result<ReceiveOutcome<Self::ReceivePayload<'a>>, Error> {
        match &self.receiver {
            None => Err(Error::new(ErrorKind::NotConnected, "not connected")),
            Some(receiver) => {
                let received = receive_by(try_recv::<T>, receiver);
                assert(may_come_of_receiving(receiver, received));
                Ok(receive_outcome(received))
            },
        }
    }
}

/// A payload that a full channel gave back is handed back, and any other one is published, also when nobody can receive it.
/// A payload that a channel gave is received, and otherwise the session is idle, also when nobody can send one.
pub proof fn outcomes_follow_channel<T>(sent: Sent<T>, received: Received<T>)
    ensures
        sent matches Sent::Full(x) ==> publish_outcome_of(sent) == PublishOutcome::Incomplete(x),
        !(sent is Full) ==> publish_outcome_of(sent) is Published,
        received matches Received::Payload(x) ==> receive_outcome_of(received) == ReceiveOutcome::Payload(x),
        !(received is Payload) ==> receive_outcome_of(received) is Idle,
{
}

/// Publishing sends the payload to the channel, and hands it back as it is when the channel is full. A closed session
/// publishes nothing, and is terminated.
pub proof fn payload_is_sent_to_channel<T: 'static>(
    pre: ChannelSender<T>,
    payload: T,
    post: ChannelSender<T>,
    r: Result<PublishOutcome<T>, Error>,
)
    requires
        pre.publishes(payload, &post, r),
    ensures
        post == pre,
        pre.channel() is None ==> pre.in_status() == SessionStatus::Terminated && crate::error::fails(
            r,
            ErrorKind::NotConnected,
            "not connected"@,
        ),
        pre.channel() matches Some(sender) ==> {
            &&& pre.in_status() == SessionStatus::Established
            &&& r is Ok
            &&& exists|sent: Sent<T>| #[trigger]
                may_come_of_sending(&sender, payload, sent) && (r->Ok_0 is Incomplete <==> sent is Full)
            &&& r matches Ok(PublishOutcome::Incomplete(x)) ==> x == payload
        },
{
    if let Some(sender) = pre.channel() {
        let sent = choose|sent: Sent<T>| #[trigger]
            may_come_of_sending(&sender, payload, sent) && r == Ok::<PublishOutcome<T>, Error>(
                publish_outcome_of(sent),
            );
        assert(may_come_of_sending(&sender, payload, sent));
    }
}

/// What is received is what the channel gave. A closed session receives nothing, and is terminated.
pub proof fn payload_is_received_from_channel<T: 'static>(
    pre: ChannelReceiver<T>,
    post: ChannelReceiver<T>,
    r: Result<ReceiveOutcome<T>, Error>,
)
    requires
        pre.receives(&post, r),
    ensures
        post == pre,
        pre.channel() is None ==> pre.in_status() == SessionStatus::Terminated && crate::error::fails(
            r,
            ErrorKind::NotConnected,
            "not connected"@,
        ),
        pre.channel() matches Some(receiver) ==> {
            &&& pre.in_status() == SessionStatus::Established
            &&& match r {
                Ok(ReceiveOutcome::Payload(x)) => may_come_of_receiving(&receiver, Received::Payload(x)),
                Ok(ReceiveOutcome::Idle) => may_come_of_receiving(&receiver, Received::Empty)
                    || may_come_of_receiving(&receiver, Received::Disconnected),
                _ => false,
            }
        },
{
}

/// Closing drops the channel, and driving changes nothing.
pub proof fn closing_drops_channel<T: 'static>(
    sender: ChannelSender<T>,
    closed_sender: ChannelSender<T>,
    receiver: ChannelReceiver<T>,
    closed_receiver: ChannelReceiver<T>,
    driven_sender: ChannelSender<T>,
    driven_receiver: ChannelReceiver<T>,
    sender_result: Result<DriveOutcome, Error>,
    receiver_result: Result<DriveOutcome, Error>,
)
    requires
        sender.closes(&closed_sender),
        receiver.closes(&closed_receiver),
        sender.drives(&driven_sender, sender_result),
        receiver.drives(&driven_receiver, receiver_result),
    ensures
        closed_sender.channel() is None,
        closed_receiver.channel() is None,
        driven_sender == sender,
        driven_receiver == receiver,
        sender_result == Ok::<DriveOutcome, Error>(DriveOutcome::Idle),
        receiver_result == Ok::<DriveOutcome, Error>(DriveOutcome::Idle),
{
}

} // verus!
