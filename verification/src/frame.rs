//! [`Receive`] and [`Publish`] implementations that serialize and deserialize payloads on underlying binary sessions.
//!
//! ## Implementations
//!
//! - [`FramePublisher`] will "frame" and publish payloads on an underlying binary [`Session`] that can [`Publish`].
//! - [`FrameReceiver`] will receive and deserialize from a binary [`Session`] that can [`Receive`].
//! - [`FrameDuplex`] acts as a combo [`FramePublisher`] and [`FrameReceiver`] for bi-directional sessions.
//!
//! The [`DeserializeFrame`] and [`SerializeFrame`] traits provided in this module enable a convenient way to convert
//! data from an underlying binary streaming protocol back and forth with parsed events.
use vstd::prelude::*;
use vstd::slice::{slice_subrange, slice_to_vec};

use crate::buffer::GrowableCircleBuf;
use crate::error::{Error, ErrorKind};
use crate::{
    DriveOutcome, Flush, Publish, PublishOutcome, Receive, ReceiveOutcome, Session, SessionStatus,
};

verus! {

/// Returns the parsed and total deserialized size frame for [`DeserializeFrame::deserialize_frame`].
pub struct SizedFrame<T> {
    pub frame: T,
    pub size: usize,
}

impl<T> SizedFrame<T> {
    pub fn new(frame: T, size: usize) -> (r: Self)
        ensures
            r.frame == frame,
            r.size == size,
    {
        Self { frame, size }
    }
}

/// Deserialize frames using buffer slices.
/// This is used by a [`FrameDuplex`] or a [`FrameReceiver`] to read frames using a raw binary [`Session`].
pub trait DeserializeFrame {
    /// Type returned by `deserialize_frame`
    ///
    /// Examples:
    /// - Framed `[u8]` contents for streaming binary messages
    /// - JSON payload for streaming JSON messages
    /// - `HttpResponse` for an HttpClient connection
    type DeserializedFrame<'a> where Self: 'a;

    /// How many bytes of the frame have been looked at already. The data given to the next check holds at
    /// least as many.
    open spec fn progress(&self) -> nat {
        0
    }

    /// Whether `data` may be given to [`DeserializeFrame::deserialize_frame`].
    open spec fn ready(&self, data: Seq<u8>) -> bool {
        true
    }

    /// Whether [`DeserializeFrame::check_deserialize_frame`] of `data` may lead to `post` with the result `r`.
    open spec fn checks(&self, data: Seq<u8>, eof: bool, post: &Self, r: Result<bool, Error>) -> bool {
        true
    }

    /// Whether [`DeserializeFrame::deserialize_frame`] of `data` may lead to `post` with the result `r`.
    open spec fn deserializes<'a>(
        &self,
        data: Seq<u8>,
        post: &Self,
        r: Result<SizedFrame<Self::DeserializedFrame<'a>>, Error>,
    ) -> bool {
        true
    }

    /// Returns if the given buffer contains a full frame starting at offset=0.
    ///
    /// This is used to determine if the buffer can be passed to the `deserialize_frame` function.
    /// This function is guaranteed to be called before `deserialize_frame(..)`.
    /// The `deserialize_frame(..)` function will only be called if this function returns `Ok(true)`.
    ///
    /// This function is guaranteed to be called repeatedly with the same set of growing data until `Ok(true)`
    /// or an `Err` is returned. This means that this function is able to cache any partially parsed frame
    /// information, as the next call to this function will always be for the same frame.
    fn check_deserialize_frame(&mut self, data: &[u8], eof: bool) -> (r: Result<bool, Error>)
        requires
            old(self).progress() <= data@.len(),
        ensures
            old(self).checks(data@, eof, final(self), r),
            final(self).progress() <= data@.len(),
            r == Ok::<bool, Error>(true) ==> final(self).ready(data@),
    ;

    /// Deserializes the given buffer into a message frame, returning the deserialized frame and serialized
    /// frame length.
    ///
    /// The lifetime of the returned data is bound to `&self` and the input `&data`.
    /// This allows for both internal buffering or zero-copy semantics.
    ///
    /// The data may contain extra data beyond the frame.
    /// The size returned in the [`SizedFrame`] struct is used to advance a read buffer.
    fn deserialize_frame<'a>(&'a mut self, data: &'a [u8]) -> (r: Result<
        SizedFrame<Self::DeserializedFrame<'a>>,
        Error,
    >)
        requires
            old(self).ready(data@),
        ensures
            old(self).deserializes(data@, final(self), r),
            final(self).progress() <= data@.len(),
            r matches Ok(sized) ==> sized.size <= data@.len() && final(self).progress() == 0,
    ;
}

pub trait SerializeFrame {
    /// Type given to `serialize_frame`
    ///
    /// Examples:
    /// - Framed `[u8]` contents for streaming binary messages
    /// - JSON payload streaming JSON messages
    /// - `HttpRequest` for an HttpClient connection
    type SerializedFrame<'a> where Self: 'a;

    /// Whether [`SerializeFrame::serialize_frame`] of `frame` may lead from this serializer and `buffer` to
    /// `post` and `post_buffer` with the result `r`.
    open spec fn serializes<'a>(
        &self,
        frame: Self::SerializedFrame<'a>,
        buffer: &GrowableCircleBuf,
        post: &Self,
        post_buffer: &GrowableCircleBuf,
        r: Result<PublishOutcome<Self::SerializedFrame<'a>>, Error>,
    ) -> bool {
        true
    }

    /// Serialize and write the given frame to the given [`GrowableCircleBuf`], returning the appropriate
    /// PublishOutcome.
    ///
    /// The frame is written as a whole or not at all.
    fn serialize_frame<'a>(
        &mut self,
        frame: Self::SerializedFrame<'a>,
        buffer: &mut GrowableCircleBuf,
    ) -> (r: Result<PublishOutcome<Self::SerializedFrame<'a>>, Error>)
        requires
            old(buffer).wf(),
        ensures
            final(buffer).wf(),
            final(buffer).capacity() == old(buffer).capacity(),
            old(self).serializes(frame, old(buffer), final(self), final(buffer), r),
            old(buffer).pending().is_prefix_of(final(buffer).pending()),
            !(r matches Ok(outcome) && outcome is Published) ==> final(buffer).pending() == old(
                buffer,
            ).pending(),
    ;
}

/// Whether driving a binary session whose unsent bytes are in `buffer` may lead to `post` and `post_buffer`
/// with the result `r`: the session is driven, and then given a run of the unsent bytes. What it takes of
/// them leaves the buffer.
pub open spec fn drives_framed<S: for<'a> Publish<PublishPayload<'a> = &'a [u8]> + 'static>(
    session: &S,
    buffer: &GrowableCircleBuf,
    post: &S,
    post_buffer: &GrowableCircleBuf,
    r: Result<DriveOutcome, Error>,
) -> bool {
    exists|mid: S, d: Result<DriveOutcome, Error>| #[trigger]
        session.drives(&mid, d) && match d {
            Err(e) => r == Err::<DriveOutcome, Error>(e) && *post == mid && *post_buffer == *buffer,
            Ok(o) => if buffer.pending().len() == 0 {
                r == d && *post == mid && *post_buffer == *buffer
            } else {
                sends_run(&mid, buffer, o, post, post_buffer, r)
            },
        }
}

/// Whether giving a run of the unsent bytes in `buffer` to a binary session that reported `o` when it was
/// driven may lead to `post` and `post_buffer` with the result `r`.
pub open spec fn sends_run<S: for<'a> Publish<PublishPayload<'a> = &'a [u8]> + 'static>(
    session: &S,
    buffer: &GrowableCircleBuf,
    o: DriveOutcome,
    post: &S,
    post_buffer: &GrowableCircleBuf,
    r: Result<DriveOutcome, Error>,
) -> bool {
    exists|run: &[u8], p: Result<PublishOutcome<&[u8]>, Error>| #[trigger]
        session.publishes(run, post, p) && run@ == buffer.next_run() && match p {
            Err(e) => r == Err::<DriveOutcome, Error>(e) && *post_buffer == *buffer,
            Ok(outcome) => {
                let n = taken(run@, outcome);
                &&& buffer.advances(n, post_buffer)
                &&& r == Ok::<DriveOutcome, Error>(
                    if n > 0 {
                        DriveOutcome::Active
                    } else {
                        o
                    },
                )
            },
        }
}

/// How many of the bytes of `run` a binary session took that reported `outcome`.
pub open spec fn taken(run: Seq<u8>, outcome: PublishOutcome<&[u8]>) -> nat {
    match outcome {
        PublishOutcome::Published => run.len(),
        PublishOutcome::Incomplete(rest) => if rest@.len() <= run.len() {
            (run.len() - rest@.len()) as nat
        } else {
            0
        },
    }
}

/// Drive a binary session and hand it a run of the unsent bytes.
fn drive_framed<S: for<'a> Publish<PublishPayload<'a> = &'a [u8]> + 'static>(
    session: &mut S,
    write_buffer: &mut GrowableCircleBuf,
) -> (r: Result<DriveOutcome, Error>)
    requires
        old(session).wf(),
        old(write_buffer).wf(),
    ensures
        final(session).wf(),
        final(write_buffer).wf(),
        drives_framed(old(session), old(write_buffer), final(session), final(write_buffer), r),
{
    let mut outcome = session.drive()?;
    if write_buffer.is_empty() {
        return Ok(outcome);
    }
    let ghost mid = *session;
    let run = write_buffer.peek_read();
    let published = session.publish(run)?;
    let wrote_len: usize = match published {
        PublishOutcome::Published => run.len(),
        PublishOutcome::Incomplete(pending) => if pending.len() <= run.len() {
            run.len() - pending.len()
        } else {
            0
        },
    };
    assert(wrote_len == taken(run@, published));
    write_buffer.advance_read(wrote_len)?;
    if wrote_len > 0 {
        outcome = DriveOutcome::Active;
    }
    Ok(outcome)
}

/// Whether receiving from a binary session whose unread bytes are `unread` may lead to `post`, `post_frames` and
/// `post_unread` with the result `r`: a frame that is complete is deserialized and its bytes leave the unread
/// ones; only when there is none is the session asked for more bytes, which are added to the unread ones.
pub open spec fn receives_framed<
    'a,
    S: for<'b> Receive<ReceivePayload<'b> = &'b [u8]> + 'static,
    DF: DeserializeFrame + 'static,
>(
    session: &S,
    frames: &DF,
    unread: Seq<u8>,
    post: &S,
    post_frames: &DF,
    post_unread: Seq<u8>,
    r: Result<ReceiveOutcome<DF::DeserializedFrame<'a>>, Error>,
) -> bool {
    exists|mid: DF, c: Result<bool, Error>| #[trigger]
        frames.checks(unread, false, &mid, c) && match c {
            Err(e) => {
                &&& r == Err::<ReceiveOutcome<DF::DeserializedFrame<'a>>, Error>(e)
                &&& *post == *session
                &&& *post_frames == mid
                &&& post_unread == unread
            },
            Ok(complete) => if complete {
                *post == *session && takes_frame(&mid, unread, post_frames, post_unread, r)
            } else {
                *post_frames == mid && takes_bytes(session, unread, post, post_unread, r)
            },
        }
}

/// Whether deserializing a complete frame may lead to `post_frames` and `post_unread` with the result `r`.
pub open spec fn takes_frame<'a, DF: DeserializeFrame + 'static>(
    frames: &DF,
    unread: Seq<u8>,
    post_frames: &DF,
    post_unread: Seq<u8>,
    r: Result<ReceiveOutcome<DF::DeserializedFrame<'a>>, Error>,
) -> bool {
    exists|d: Result<SizedFrame<DF::DeserializedFrame<'a>>, Error>| #[trigger]
        frames.deserializes(unread, post_frames, d) && match d {
            Err(e) => {
                &&& r == Err::<ReceiveOutcome<DF::DeserializedFrame<'a>>, Error>(e)
                &&& post_unread == unread
            },
            Ok(sized) => {
                &&& r == Ok::<ReceiveOutcome<DF::DeserializedFrame<'a>>, Error>(
                    ReceiveOutcome::Payload(sized.frame),
                )
                &&& sized.size <= unread.len()
                &&& post_unread == unread.skip(sized.size as int)
            },
        }
}

/// Whether asking a binary session for more bytes may lead to `post` and `post_unread` with the result `r`.
pub open spec fn takes_bytes<T, S: for<'b> Receive<ReceivePayload<'b> = &'b [u8]> + 'static>(
    session: &S,
    unread: Seq<u8>,
    post: &S,
    post_unread: Seq<u8>,
    r: Result<ReceiveOutcome<T>, Error>,
) -> bool {
    exists|x: Result<ReceiveOutcome<&[u8]>, Error>| #[trigger]
        session.receives(post, x) && match x {
            Err(e) => r == Err::<ReceiveOutcome<T>, Error>(e) && post_unread == unread,
            Ok(ReceiveOutcome::Payload(bytes)) => {
                &&& r == Ok::<ReceiveOutcome<T>, Error>(ReceiveOutcome::Buffered)
                &&& post_unread == unread + bytes@
            },
            Ok(ReceiveOutcome::Buffered) => {
                &&& r == Ok::<ReceiveOutcome<T>, Error>(ReceiveOutcome::Buffered)
                &&& post_unread == unread
            },
            Ok(ReceiveOutcome::Idle) => {
                &&& r == Ok::<ReceiveOutcome<T>, Error>(ReceiveOutcome::Idle)
                &&& post_unread == unread
            },
        }
}

/// Deserialize a frame from the unread bytes, or ask a binary session for more of them.
fn receive_framed<
    'a,
    S: for<'b> Receive<ReceivePayload<'b> = &'b [u8]> + 'static,
    DF: DeserializeFrame + 'static,
>(
    session: &mut S,
    deserialize_frame: &'a mut DF,
    read_buffer: &'a mut Vec<u8>,
    read_advance: &mut usize,
) -> (r: Result<ReceiveOutcome<DF::DeserializedFrame<'a>>, Error>)
    requires
        old(session).wf(),
        *old(read_advance) <= old(read_buffer)@.len(),
        old(deserialize_frame).progress() <= old(read_buffer)@.len() - *old(read_advance),
    ensures
        final(session).wf(),
        *final(read_advance) <= final(read_buffer)@.len(),
        final(deserialize_frame).progress() <= final(read_buffer)@.len() - *final(read_advance),
        receives_framed(
            old(session),
            old(deserialize_frame),
            old(read_buffer)@.skip(*old(read_advance) as int),
            final(session),
            final(deserialize_frame),
            final(read_buffer)@.skip(*final(read_advance) as int),
            r,
        ),
{
    let ghost unread = read_buffer@.skip(*read_advance as int);
    if *read_advance != 0 {
        let rest = slice_to_vec(
            slice_subrange(read_buffer.as_slice(), *read_advance, read_buffer.len()),
        );
        *read_advance = 0;
        *read_buffer = rest;
    }
    assert(read_buffer@ =~= unread);
    assert(read_buffer@.skip(0) =~= unread);
    // try deserializing before receiving to avoid growing the buffer forever in a slow consumer
    if deserialize_frame.check_deserialize_frame(read_buffer.as_slice(), false)? {
        let de = deserialize_frame.deserialize_frame(read_buffer.as_slice())?;
        *read_advance = de.size;
        return Ok(ReceiveOutcome::Payload(de.frame));
    }
    let data = match session.receive()? {
        ReceiveOutcome::Payload(data) => data,
        ReceiveOutcome::Buffered => return Ok(ReceiveOutcome::Buffered),
        ReceiveOutcome::Idle => return Ok(ReceiveOutcome::Idle),
    };
    read_buffer.extend_from_slice(data);
    assert(read_buffer@.skip(0) =~= unread + data@);
    assert(old(session).receives(final(session), Ok(ReceiveOutcome::Payload(data))));
    Ok(ReceiveOutcome::Buffered)
}

/// # FrameDuplex
///
/// Encapsulates a binary bi-directional streaming [`Session`], providing framing using the given [`SerializeFrame`]
/// and [`DeserializeFrame`] traits.
/// The underlying [`Publish::PublishPayload`] and [`Receive::ReceivePayload`] must be `[u8]`.
///
/// This effectively translates any `Session<ReceivePayload=[u8], PublishPayload=[u8]>` to a
/// `Session<ReceivePayload=YourStruct, PublishPayload=YourStruct>` provided apporpriate [`SerializeFrame`] and
/// [`DeserializeFrame`] impls.
///
/// ## Drive
///
/// It is imperative that the `drive` function be called regularly in this implementation.
/// This function is responsible for writing bytes from the internal write buffer to the underlying [`Session`].
///
/// ## Publish Buffering
///
/// Frames passed into `publish` are serialized using the [`SerializeFrame`] impl and are copied to an internal
/// circular buffer. The internal circular buffer is initialized with a capacity given to the `new` function.
///
/// If the entire frame is not able to fit in the remaining circular buffer space, none of the frame will be copied.
/// In this case, [`PublishOutcome::Incomplete`] will be returned with a reference to the frame to be retried later.
///
/// The circular buffer will grow to fit frames that exceed the entire circular buffer capacity, but only when the
/// buffer is empty. This allows for any sized frame to be successfuly published while avoiding the circular buffer
/// growing the unreasonable sizes.
///
/// ## Receive Buffering
///
/// Data is received from the underlying binary [`Receive`] [`Session`] into an internal [`Vec<u8>`].
/// Each call to receive will first check if the read buffer contains a full frame to be returned immediately.
/// The underlying [`Receive::receive`] function will only be called when the read buffer is devoid of a full frame.
/// This avoids the buffer growing to an unreasonable size, as it will only ever grow to the size of a frame plus the
/// next read size.
pub struct FrameDuplex<S, DF, SF> {
    session: S,
    deserialize_frame: DF,
    serialize_frame: SF,
    write_buffer: GrowableCircleBuf,
    read_buffer: Vec<u8>,
    read_advance: usize,
}

impl<S, DF, SF> FrameDuplex<S, DF, SF> {
    /// The underlying binary session.
    pub closed spec fn inner(&self) -> S {
        self.session
    }

    /// The strategy used to convert binary data to framed messages.
    pub closed spec fn deserializer(&self) -> DF {
        self.deserialize_frame
    }

    /// The strategy used to convert framed messages to binary data.
    pub closed spec fn serializer(&self) -> SF {
        self.serialize_frame
    }

    /// The serialized frames that the underlying session has not taken yet.
    pub closed spec fn unsent(&self) -> GrowableCircleBuf {
        self.write_buffer
    }

    /// The received bytes that have not been returned as a frame yet.
    pub closed spec fn unread(&self) -> Seq<u8> {
        self.read_buffer@.skip(self.read_advance as int)
    }

    spec fn read_wf(&self) -> bool {
        self.read_advance <= self.read_buffer@.len()
    }
}

impl<S, DF, SF> FrameDuplex<S, DF, SF> where
    S: for<'a> Publish<PublishPayload<'a> = &'a [u8]> + for<'a> Receive<
        ReceivePayload<'a> = &'a [u8],
    > + 'static,
    DF: DeserializeFrame + 'static,
    SF: SerializeFrame + 'static,
 {
    /// Create a new [`FrameDuplex`]
    ///
    /// # Parameters
    /// - `session`: The underlying binary [`Session`]
    /// - `deserialize_frame`: The strategy used to convert binary data to framed messages
    /// - `serialize_frame`: The strategy used to convert framed messages to binary data
    /// - `write_buffer_capacity`: The capacity, **in bytes**, of the underlying circular buffer that holds serialized
    ///   write frames
    pub fn new(
        session: S,
        deserialize_frame: DF,
        serialize_frame: SF,
        write_buffer_capacity: usize,
    ) -> (r: Self)
        requires
            session.wf(),
            deserialize_frame.progress() == 0,
            write_buffer_capacity <= isize::MAX / 2 + 1,
        ensures
            r.wf(),
            r.inner() == session,
            r.deserializer() == deserialize_frame,
            r.serializer() == serialize_frame,
            r.unsent().pending() == Seq::<u8>::empty(),
            r.unsent().position() == 0,
            crate::buffer::is_next_power_of_two(
                r.unsent().capacity() as int + 1,
                write_buffer_capacity as nat,
            ),
            r.unread() == Seq::<u8>::empty(),
    {
        let write_buffer = new_write_buffer(write_buffer_capacity);
        Self {
            session,
            deserialize_frame,
            serialize_frame,
            write_buffer,
            read_buffer: Vec::new(),
            read_advance: 0,
        }
    }

    /// Add bytes that were received in another way to the end of the unread ones.
    pub fn buffer_received(&mut self, data: &[u8])
        requires
            old(self).wf(),
        ensures
            final(self).wf(),
            final(self).unread() == old(self).unread() + data@,
            final(self).inner() == old(self).inner(),
            final(self).deserializer() == old(self).deserializer(),
            final(self).serializer() == old(self).serializer(),
            final(self).unsent() == old(self).unsent(),
    {
        self.read_buffer.extend_from_slice(data);
    }
}

/// Create the circular buffer of a [`FrameDuplex`] or a [`FramePublisher`].
fn new_write_buffer(capacity: usize) -> (r: GrowableCircleBuf)
    requires
        capacity <= isize::MAX / 2 + 1,
    ensures
        r.wf(),
        r.pending() == Seq::<u8>::empty(),
        r.position() == 0,
        crate::buffer::is_next_power_of_two(r.capacity() as int + 1, capacity as nat),
{
    match GrowableCircleBuf::new(capacity) {
        Ok(buf) => buf,
        Err(_) => vstd::pervasive::unreached(),
    }
}

impl<S, DF, SF> Session for FrameDuplex<S, DF, SF> where
    S: for<'a> Publish<PublishPayload<'a> = &'a [u8]> + 'static,
    DF: DeserializeFrame + 'static,
    SF: SerializeFrame + 'static,
 {
    closed spec fn wf(&self) -> bool {
        &&& self.session.wf()
        &&& self.write_buffer.wf()
        &&& self.read_wf()
        &&& self.deserialize_frame.progress() <= self.unread().len()
    }

    open spec fn in_status(&self) -> SessionStatus {
        self.inner().in_status()
    }

    open spec fn closes(&self, post: &Self) -> bool {
        &&& self.inner().closes(&post.inner())
        &&& post.deserializer() == self.deserializer()
        &&& post.serializer() == self.serializer()
        &&& post.unsent() == self.unsent()
        &&& post.unread() == self.unread()
    }

    open spec fn drives(&self, post: &Self, r: Result<DriveOutcome, Error>) -> bool {
        &&& drives_framed(&self.inner(), &self.unsent(), &post.inner(), &post.unsent(), r)
        &&& post.deserializer() == self.deserializer()
        &&& post.serializer() == self.serializer()
        &&& post.unread() == self.unread()
    }

    fn status(&self) -> SessionStatus {
        self.session.status()
    }

    fn close(&mut self) {
        self.session.close()
    }

    fn drive(&mut self) -> Result<DriveOutcome, Error> {
        drive_framed(&mut self.session, &mut self.write_buffer)
    }
}

impl<S, DF, SF> Publish for FrameDuplex<S, DF, SF> where
    S: for<'a> Publish<PublishPayload<'a> = &'a [u8]> + 'static,
    DF: DeserializeFrame + 'static,
    SF: SerializeFrame + 'static,
 {
    type PublishPayload<'a> = SF::SerializedFrame<'a>;

    open spec fn publishes<'a>(
        &self,
        frame: Self::PublishPayload<'a>,
        post: &Self,
        r: Result<PublishOutcome<Self::PublishPayload<'a>>, Error>,
    ) -> bool {
        &&& post.inner() == self.inner()
        &&& post.deserializer() == self.deserializer()
        &&& post.unread() == self.unread()
        &&& if self.inner().in_status() != SessionStatus::Established {
            &&& crate::error::fails(
                r,
                ErrorKind::NotConnected,
                "underlying session is not established"@,
            )
            &&& post.serializer() == self.serializer()
            &&& post.unsent() == self.unsent()
        } else {
            self.serializer().serializes(
                frame,
                &self.unsent(),
                &post.serializer(),
                &post.unsent(),
                r,
            )
        }
    }

    fn publish<'a>(&mut self, frame: Self::PublishPayload<'a>) -> Result<
        PublishOutcome<Self::PublishPayload<'a>>,
        Error,
    > {
        if self.session.status() != SessionStatus::Established {
            return Err(Error::new(ErrorKind::NotConnected, "underlying session is not established"));
        }
        self.serialize_frame.serialize_frame(frame, &mut self.write_buffer)
    }
}

impl<S, DF, SF> Receive for FrameDuplex<S, DF, SF> where
    S: for<'a> Publish<PublishPayload<'a> = &'a [u8]> + for<'a> Receive<
        ReceivePayload<'a> = &'a [u8],
    > + 'static,
    DF: DeserializeFrame + 'static,
    SF: SerializeFrame + 'static,
 {
    type ReceivePayload<'a> = DF::DeserializedFrame<'a>;

    open spec fn receives<'a>(
        &self,
        post: &Self,
        r: Result<ReceiveOutcome<Self::ReceivePayload<'a>>, Error>,
    ) -> bool {
        &&& receives_framed(
            &self.inner(),
            &self.deserializer(),
            self.unread(),
            &post.inner(),
            &post.deserializer(),
            post.unread(),
            r,
        )
        &&& post.serializer() == self.serializer()
        &&& post.unsent() == self.unsent()
    }

    fn receive<'a>(&'a mut self) -> Result<ReceiveOutcome<Self::ReceivePayload<'a>>, Error> {
        receive_framed(
            &mut self.session,
            &mut self.deserialize_frame,
            &mut self.read_buffer,
            &mut self.read_advance,
        )
    }
}

/// Whether `n` successful drives, each made because there were unsent bytes, may lead to `post` and `post_buffer`.
pub open spec fn drained<S: for<'a> Publish<PublishPayload<'a> = &'a [u8]> + 'static>(
    session: &S,
    buffer: &GrowableCircleBuf,
    n: nat,
    post: &S,
    post_buffer: &GrowableCircleBuf,
) -> bool
    decreases n,
{
    if n == 0 {
        *post == *session && *post_buffer == *buffer
    } else {
        exists|mid: S, mid_buffer: GrowableCircleBuf, o: DriveOutcome|
            drained(session, buffer, (n - 1) as nat, &mid, &mid_buffer) && mid_buffer.pending().len() > 0
                && #[trigger] drives_framed(&mid, &mid_buffer, post, post_buffer, Ok(o))
    }
}

/// Whether flushing may lead to `post` and `post_buffer` with the result `r`: the session is driven until there are
/// no unsent bytes or a drive fails, and then flushed itself. It is given up after as many drives as a `u64` counts.
pub open spec fn flushes_framed<S: for<'a> Publish<PublishPayload<'a> = &'a [u8]> + Flush + 'static>(
    session: &S,
    buffer: &GrowableCircleBuf,
    post: &S,
    post_buffer: &GrowableCircleBuf,
    r: Result<(), Error>,
) -> bool {
    exists|n: nat, mid: S, mid_buffer: GrowableCircleBuf| #[trigger]
        drained(session, buffer, n, &mid, &mid_buffer) && if mid_buffer.pending().len() == 0 {
            mid.flushes(post, r) && *post_buffer == mid_buffer
        } else if n < u64::MAX {
            r matches Err(e) && drives_framed(&mid, &mid_buffer, post, post_buffer, Err(e))
        } else {
            crate::error::fails(r, ErrorKind::TimedOut, "unsent bytes remain"@) && *post == mid
                && *post_buffer == mid_buffer
        }
}

/// Drive a binary session until it has taken all unsent bytes, and flush it.
fn flush_framed<S: for<'a> Publish<PublishPayload<'a> = &'a [u8]> + Flush + 'static>(
    session: &mut S,
    write_buffer: &mut GrowableCircleBuf,
) -> (r: Result<(), Error>)
    requires
        old(session).wf(),
        old(write_buffer).wf(),
    ensures
        final(session).wf(),
        final(write_buffer).wf(),
        flushes_framed(old(session), old(write_buffer), final(session), final(write_buffer), r),
{
    let mut drives: u64 = 0;
    while !write_buffer.is_empty()
        invariant
            session.wf(),
            write_buffer.wf(),
            drained(old(session), old(write_buffer), drives as nat, session, write_buffer),
        decreases u64::MAX - drives,
    {
        if drives == u64::MAX {
            return Err(Error::new(ErrorKind::TimedOut, "unsent bytes remain"));
        }
        let ghost mid = *session;
        let ghost mid_buffer = *write_buffer;
        let o = drive_framed(session, write_buffer)?;
        drives = drives + 1;
        assert(drained(old(session), old(write_buffer), (drives - 1) as nat, &mid, &mid_buffer));
        assert(drives_framed(&mid, &mid_buffer, session, write_buffer, Ok(o)));
    }
    session.flush()
}

impl<S, DF, SF> Flush for FrameDuplex<S, DF, SF> where
    S: for<'a> Publish<PublishPayload<'a> = &'a [u8]> + Flush + 'static,
    DF: DeserializeFrame + 'static,
    SF: SerializeFrame + 'static,
 {
    open spec fn flushes(&self, post: &Self, r: Result<(), Error>) -> bool {
        &&& flushes_framed(&self.inner(), &self.unsent(), &post.inner(), &post.unsent(), r)
        &&& post.deserializer() == self.deserializer()
        &&& post.serializer() == self.serializer()
        &&& post.unread() == self.unread()
    }

    fn flush(&mut self) -> Result<(), Error> {
        flush_framed(&mut self.session, &mut self.write_buffer)
    }
}

/// # FramePublisher
///
/// Encapsulates a binary streaming [`Session`], providing framing using the given [`SerializeFrame`] trait.
/// The underlying [`Publish::PublishPayload`] must be `[u8]`.
///
/// This effectively translates any `Publish<PublishPayload=[u8]>` to a `Publish<PublishPayload=YourStruct>`
/// provided an apporpriate [`SerializeFrame`] impls.
///
/// ## Drive
///
/// It is imperative that the `drive` function be called regularly in this implementation.
/// This function is responsible for writing bytes from the internal write buffer to the underlying [`Session`].
///
/// ## Publish Buffering
///
/// Frames passed into `publish` are serialized using the [`SerializeFrame`] impl and are copied to an internal
/// circular buffer. The internal circular buffer is initialized with a capacity given to the `new` function.
///
/// If the entire frame is not able to fit in the remaining circular buffer space, none of the frame will be copied.
/// In this case, [`PublishOutcome::Incomplete`] will be returned with a reference to the frame to be retried later.
///
/// The circular buffer will grow to fit frames that exceed the entire circular buffer capacity, but only when the
/// buffer is empty. This allows for any sized frame to be successfuly published while avoiding the circular buffer
/// growing the unreasonable sizes.
pub struct FramePublisher<S, F> {
    session: S,
    framing_strategy: F,
    write_buffer: GrowableCircleBuf,
}

impl<S, F> FramePublisher<S, F> {
    /// The underlying binary session.
    pub closed spec fn inner(&self) -> S {
        self.session
    }

    /// The strategy used to convert framed messages to binary data.
    pub closed spec fn serializer(&self) -> F {
        self.framing_strategy
    }

    /// The serialized frames that the underlying session has not taken yet.
    pub closed spec fn unsent(&self) -> GrowableCircleBuf {
        self.write_buffer
    }
}

impl<S, F> FramePublisher<S, F> where
    S: for<'a> Publish<PublishPayload<'a> = &'a [u8]> + 'static,
    F: SerializeFrame + 'static,
 {
    /// Create a new [`FramePublisher`]
    ///
    /// # Parameters
    /// - `session`: The underlying binary [`Session`]
    /// - `framing_strategy`: The strategy used to convert binary data back and forth to framed messages
    /// - `write_buffer_capacity`: The capacity, **in bytes**, of the underlying circular buffer that holds serialized
    ///   write frames
    pub fn new(session: S, framing_strategy: F, write_buffer_capacity: usize) -> (r: Self)
        requires
            session.wf(),
            write_buffer_capacity <= isize::MAX / 2 + 1,
        ensures
            r.wf(),
            r.inner() == session,
            r.serializer() == framing_strategy,
            r.unsent().pending() == Seq::<u8>::empty(),
            r.unsent().position() == 0,
            crate::buffer::is_next_power_of_two(
                r.unsent().capacity() as int + 1,
                write_buffer_capacity as nat,
            ),
    {
        let write_buffer = new_write_buffer(write_buffer_capacity);
        Self { session, framing_strategy, write_buffer }
    }
}

impl<S, F> Session for FramePublisher<S, F> where
    S: for<'a> Publish<PublishPayload<'a> = &'a [u8]> + 'static,
    F: SerializeFrame + 'static,
 {
    closed spec fn wf(&self) -> bool {
        self.session.wf() && self.write_buffer.wf()
    }

    open spec fn in_status(&self) -> SessionStatus {
        self.inner().in_status()
    }

    open spec fn closes(&self, post: &Self) -> bool {
        &&& self.inner().closes(&post.inner())
        &&& post.serializer() == self.serializer()
        &&& post.unsent() == self.unsent()
    }

    open spec fn drives(&self, post: &Self, r: Result<DriveOutcome, Error>) -> bool {
        &&& drives_framed(&self.inner(), &self.unsent(), &post.inner(), &post.unsent(), r)
        &&& post.serializer() == self.serializer()
    }

    fn status(&self) -> SessionStatus {
        self.session.status()
    }

    fn close(&mut self) {
        self.session.close()
    }

    fn drive(&mut self) -> Result<DriveOutcome, Error> {
        drive_framed(&mut self.session, &mut self.write_buffer)
    }
}

impl<S, F> Publish for FramePublisher<S, F> where
    S: for<'a> Publish<PublishPayload<'a> = &'a [u8]> + 'static,
    F: SerializeFrame + 'static,
 {
    type PublishPayload<'a> = F::SerializedFrame<'a>;

    open spec fn publishes<'a>(
        &self,
        frame: Self::PublishPayload<'a>,
        post: &Self,
        r: Result<PublishOutcome<Self::PublishPayload<'a>>, Error>,
    ) -> bool {
        &&& post.inner() == self.inner()
        &&& if self.inner().in_status() != SessionStatus::Established {
            &&& crate::error::fails(
                r,
                ErrorKind::NotConnected,
                "underlying session is not established"@,
            )
            &&& post.serializer() == self.serializer()
            &&& post.unsent() == self.unsent()
        } else {
            self.serializer().serializes(
                frame,
                &self.unsent(),
                &post.serializer(),
                &post.unsent(),
                r,
            )
        }
    }

    fn publish<'a>(&mut self, frame: Self::PublishPayload<'a>) -> Result<
        PublishOutcome<Self::PublishPayload<'a>>,
        Error,
    > {
        if self.session.status() != SessionStatus::Established {
            return Err(Error::new(ErrorKind::NotConnected, "underlying session is not established"));
        }
        self.framing_strategy.serialize_frame(frame, &mut self.write_buffer)
    }
}

impl<S, F> Flush for FramePublisher<S, F> where
    S: for<'a> Publish<PublishPayload<'a> = &'a [u8]> + Flush + 'static,
    F: SerializeFrame + 'static,
 {
    open spec fn flushes(&self, post: &Self, r: Result<(), Error>) -> bool {
        &&& flushes_framed(&self.inner(), &self.unsent(), &post.inner(), &post.unsent(), r)
        &&& post.serializer() == self.serializer()
    }

    fn flush(&mut self) -> Result<(), Error> {
        flush_framed(&mut self.session, &mut self.write_buffer)
    }
}

/// # FrameReceiver
///
/// Encapsulates a binary streaming [`Session`], providing framing using the given [`DeserializeFrame`] trait.
/// The underlying [`Receive::ReceivePayload`] must be `[u8]`.
///
/// This effectively translates any `Receive<ReceivePayload=[u8]>` to a `Receive<ReceivePayload=YourStruct>`
/// provided an apporpriate [`DeserializeFrame`] impl.
///
/// ## Receive Buffering
///
/// Data is received from the underlying binary [`Receive`] [`Session`] into an internal [`Vec<u8>`].
/// Each call to receive will first check if the read buffer contains a full frame to be returned immediately.
/// The underlying [`Receive::receive`] function will only be called when the read buffer is devoid of a full frame.
/// This avoids the buffer growing to an unreasonable size, as it will only ever grow to the size of a frame plus the
/// next read size.
pub struct FrameReceiver<S, F> {
    session: S,
    deserialize_frame: F,
    read_buffer: Vec<u8>,
    read_advance: usize,
}

impl<S, F> FrameReceiver<S, F> {
    /// The underlying binary session.
    pub closed spec fn inner(&self) -> S {
        self.session
    }

    /// The strategy used to convert binary data to framed messages.
    pub closed spec fn deserializer(&self) -> F {
        self.deserialize_frame
    }

    /// The received bytes that have not been returned as a frame yet.
    pub closed spec fn unread(&self) -> Seq<u8> {
        self.read_buffer@.skip(self.read_advance as int)
    }

    spec fn read_wf(&self) -> bool {
        self.read_advance <= self.read_buffer@.len()
    }
}

impl<S, F> FrameReceiver<S, F> where S: Session + 'static, F: DeserializeFrame + 'static {
    /// Create a new [`FrameReceiver`]
    ///
    /// # Parameters
    /// - `session`: The underlying binary [`Session`]
    /// - `deserialize_frame`: The strategy used to convert binary data back and forth to framed messages
    pub fn new(session: S, deserialize_frame: F) -> (r: Self)
        requires
            session.wf(),
            deserialize_frame.progress() == 0,
        ensures
            r.wf(),
            r.inner() == session,
            r.deserializer() == deserialize_frame,
            r.unread() == Seq::<u8>::empty(),
    {
        Self { session, deserialize_frame, read_buffer: Vec::new(), read_advance: 0 }
    }
}

impl<S, F> Session for FrameReceiver<S, F> where S: Session + 'static, F: DeserializeFrame + 'static {
    closed spec fn wf(&self) -> bool {
        &&& self.session.wf()
        &&& self.read_wf()
        &&& self.deserialize_frame.progress() <= self.unread().len()
    }

    open spec fn in_status(&self) -> SessionStatus {
        self.inner().in_status()
    }

    open spec fn closes(&self, post: &Self) -> bool {
        &&& self.inner().closes(&post.inner())
        &&& post.deserializer() == self.deserializer()
        &&& post.unread() == self.unread()
    }

    open spec fn drives(&self, post: &Self, r: Result<DriveOutcome, Error>) -> bool {
        &&& self.inner().drives(&post.inner(), r)
        &&& post.deserializer() == self.deserializer()
        &&& post.unread() == self.unread()
    }

    fn status(&self) -> SessionStatus {
        self.session.status()
    }

    fn close(&mut self) {
        self.session.close()
    }

    fn drive(&mut self) -> Result<DriveOutcome, Error> {
        self.session.drive()
    }
}

impl<S, F> Receive for FrameReceiver<S, F> where
    S: for<'a> Receive<ReceivePayload<'a> = &'a [u8]> + 'static,
    F: DeserializeFrame + 'static,
 {
    type ReceivePayload<'a> = F::DeserializedFrame<'a>;

    open spec fn receives<'a>(
        &self,
        post: &Self,
        r: Result<ReceiveOutcome<Self::ReceivePayload<'a>>, Error>,
    ) -> bool {
        receives_framed(
            &self.inner(),
            &self.deserializer(),
            self.unread(),
            &post.inner(),
            &post.deserializer(),
            post.unread(),
            r,
        )
    }

    fn receive<'a>(&'a mut self) -> Result<ReceiveOutcome<Self::ReceivePayload<'a>>, Error> {
        receive_framed(
            &mut self.session,
            &mut self.deserialize_frame,
            &mut self.read_buffer,
            &mut self.read_advance,
        )
    }
}

/// The frame that [`U64FrameSerializer`] makes of a payload: its length, as a little-endian u64, and the payload.
pub open spec fn u64_frame(payload: Seq<u8>) -> Seq<u8> {
    vstd::bytes::spec_u64_to_le_bytes(payload.len() as u64) + payload
}

/// The payload length that a frame which starts with these eight bytes announces.
pub open spec fn u64_frame_len(data: Seq<u8>) -> u64 {
    vstd::bytes::spec_u64_from_le_bytes(data.take(8))
}

/// A zero-copy binary [`SerializeFrame`] implementation that adds a little-endian u64 length to the beginning of the
/// data.
pub struct U64FrameSerializer {
    header: [u8; 8],
}

impl U64FrameSerializer {
    /// The length bytes that the last frame starts with, or zeros before the first.
    pub closed spec fn header(&self) -> Seq<u8> {
        self.header@
    }

    pub fn new() -> (r: Self)
        ensures
            r.header() == Seq::new(8, |i: int| 0u8),
    {
        let r = Self { header: [0; 8] };
        assert(r.header@ =~= Seq::new(8, |i: int| 0u8));
        r
    }

    /// Make the header that of a payload of that length.
    fn set_header(&mut self, len: u64)
        ensures
            final(self).header() == vstd::bytes::spec_u64_to_le_bytes(len),
    {
        let bytes = vstd::bytes::u64_to_le_bytes(len);
        let mut i: usize = 0;
        while i < 8
            invariant
                i <= 8,
                bytes@.len() == 8,
                forall|k: int| 0 <= k < i ==> #[trigger] self.header@[k] == bytes@[k],
            decreases 8 - i,
        {
            self.header[i] = bytes[i];
            i = i + 1;
        }
        assert(self.header@ =~= bytes@);
    }
}

impl SerializeFrame for U64FrameSerializer {
    type SerializedFrame<'a> = &'a [u8];

    open spec fn serializes<'a>(
        &self,
        data: Self::SerializedFrame<'a>,
        buffer: &GrowableCircleBuf,
        post: &Self,
        post_buffer: &GrowableCircleBuf,
        r: Result<PublishOutcome<Self::SerializedFrame<'a>>, Error>,
    ) -> bool {
        &&& post.header() == vstd::bytes::spec_u64_to_le_bytes(data@.len() as u64)
        &&& if data@.len() + 8 > usize::MAX {
            &&& crate::error::fails(r, ErrorKind::InvalidData, "frame to serialize exceeds usize"@)
            &&& *post_buffer == *buffer
        } else if buffer.accepts(u64_frame(data@).len()) {
            &&& r == Ok::<PublishOutcome<Self::SerializedFrame<'a>>, Error>(PublishOutcome::Published)
            &&& buffer.writes(u64_frame(data@), post_buffer)
        } else {
            &&& r == Ok::<PublishOutcome<Self::SerializedFrame<'a>>, Error>(
                PublishOutcome::Incomplete(data),
            )
            &&& *post_buffer == *buffer
        }
    }

    fn serialize_frame<'a>(
        &mut self,
        data: Self::SerializedFrame<'a>,
        write_buffer: &mut GrowableCircleBuf,
    ) -> Result<PublishOutcome<Self::SerializedFrame<'a>>, Error> {
        self.set_header(data.len() as u64);
        if data.len() > usize::MAX - 8 {
            return Err(Error::new(ErrorKind::InvalidData, "frame to serialize exceeds usize"));
        }
        let parts: Vec<&[u8]> = vec![self.header.as_slice(), data];
        proof {
            reveal_with_fuel(crate::buffer::joined, 3);
            assert(parts@.drop_last().drop_last() =~= Seq::<&[u8]>::empty());
            assert(crate::buffer::joined(parts@) =~= u64_frame(data@));
        }
        if write_buffer.try_write(&parts)? {
            Ok(PublishOutcome::Published)
        } else {
            Ok(PublishOutcome::Incomplete(data))
        }
    }
}

/// A zero-copy binary [`DeserializeFrame`] implementation that utilizes a little-endian u64 length at the beginning of
/// the data.
pub struct U64FrameDeserializer {}

impl U64FrameDeserializer {
    pub fn new() -> (r: Self)
        ensures
            r.progress() == 0,
    {
        Self {  }
    }
}

impl DeserializeFrame for U64FrameDeserializer {
    type DeserializedFrame<'a> = &'a [u8];

    open spec fn progress(&self) -> nat {
        0
    }

    open spec fn ready(&self, data: Seq<u8>) -> bool {
        true
    }

    open spec fn checks(&self, data: Seq<u8>, eof: bool, post: &Self, r: Result<bool, Error>) -> bool {
        if data.len() < 8 {
            r == Ok::<bool, Error>(false)
        } else if u64_frame_len(data) > usize::MAX {
            crate::error::fails(r, ErrorKind::InvalidData, "frame to deserialize exceeds usize"@)
        } else {
            r == Ok::<bool, Error>(8 + u64_frame_len(data) <= data.len())
        }
    }

    open spec fn deserializes<'a>(
        &self,
        data: Seq<u8>,
        post: &Self,
        r: Result<SizedFrame<Self::DeserializedFrame<'a>>, Error>,
    ) -> bool {
        if data.len() < 8 {
            crate::error::fails(r, ErrorKind::InvalidData, "cannot deserialize partial frame"@)
        } else if u64_frame_len(data) > usize::MAX {
            crate::error::fails(r, ErrorKind::InvalidData, "frame to deserialize exceeds usize"@)
        } else if 8 + u64_frame_len(data) > data.len() {
            crate::error::fails(r, ErrorKind::InvalidData, "cannot deserialize partial frame"@)
        } else {
            &&& r matches Ok(sized)
            &&& sized.size == 8 + u64_frame_len(data)
            &&& sized.frame@ == data.subrange(8, 8 + u64_frame_len(data))
        }
    }

    fn check_deserialize_frame(&mut self, data: &[u8], _eof: bool) -> Result<bool, Error> {
        if data.len() < 8 {
            return Ok(false);
        }
        let len: u64 = vstd::bytes::u64_from_le_bytes(slice_subrange(data, 0, 8));
        if len > usize::MAX as u64 {
            return Err(Error::new(ErrorKind::InvalidData, "frame to deserialize exceeds usize"));
        }
        Ok(data.len() - 8 >= len as usize)
    }

    fn deserialize_frame<'a>(&'a mut self, data: &'a [u8]) -> Result<
        SizedFrame<Self::DeserializedFrame<'a>>,
        Error,
    > {
        if data.len() < 8 {
            return Err(Error::new(ErrorKind::InvalidData, "cannot deserialize partial frame"));
        }
        let len: u64 = vstd::bytes::u64_from_le_bytes(slice_subrange(data, 0, 8));
        if len > usize::MAX as u64 {
            return Err(Error::new(ErrorKind::InvalidData, "frame to deserialize exceeds usize"));
        }
        let ulen: usize = len as usize;
        if data.len() - 8 >= ulen {
            Ok(SizedFrame::new(slice_subrange(data, 8, 8 + ulen), 8 + ulen))
        } else {
            Err(Error::new(ErrorKind::InvalidData, "cannot deserialize partial frame"))
        }
    }
}

/// What [`U64FrameSerializer`] wrote is read back by [`U64FrameDeserializer`]: data that starts with the frame of
/// `payload` holds a complete frame, which is deserialized to `payload` and is as long as what was written,
/// whatever follows it.
pub proof fn u64_frame_is_read_back(
    payload: Seq<u8>,
    rest: Seq<u8>,
    eof: bool,
    frames: U64FrameDeserializer,
    post: U64FrameDeserializer,
    c: Result<bool, Error>,
    d: Result<SizedFrame<&[u8]>, Error>,
)
    requires
        payload.len() + 8 <= usize::MAX,
        frames.checks(u64_frame(payload) + rest, eof, &post, c),
        frames.deserializes(u64_frame(payload) + rest, &post, d),
    ensures
        c == Ok::<bool, Error>(true),
        d matches Ok(sized) && sized.frame@ == payload && sized.size == u64_frame(payload).len(),
{
    let data = u64_frame(payload) + rest;
    vstd::bytes::lemma_auto_spec_u64_to_from_le_bytes();
    assert(data.take(8) =~= vstd::bytes::spec_u64_to_le_bytes(payload.len() as u64));
    assert(data.subrange(8, 8 + payload.len() as int) =~= payload);
}

/// A part of a frame is not a complete frame: every proper prefix of what [`U64FrameSerializer`] wrote waits for more
/// data.
pub proof fn u64_frame_part_is_incomplete(
    payload: Seq<u8>,
    part: Seq<u8>,
    eof: bool,
    frames: U64FrameDeserializer,
    post: U64FrameDeserializer,
    c: Result<bool, Error>,
)
    requires
        payload.len() + 8 <= usize::MAX,
        part.is_prefix_of(u64_frame(payload)),
        part.len() < u64_frame(payload).len(),
        frames.checks(part, eof, &post, c),
    ensures
        c == Ok::<bool, Error>(false),
{
    vstd::bytes::lemma_auto_spec_u64_to_from_le_bytes();
    if part.len() >= 8 {
        assert(part.take(8) =~= vstd::bytes::spec_u64_to_le_bytes(payload.len() as u64));
    }
}

/// The data that a check of [`U64FrameDeserializer`] finds complete is the data that it deserializes.
pub proof fn u64_check_decides_deserialize(
    data: Seq<u8>,
    eof: bool,
    frames: U64FrameDeserializer,
    post: U64FrameDeserializer,
    c: Result<bool, Error>,
    d: Result<SizedFrame<&[u8]>, Error>,
)
    requires
        frames.checks(data, eof, &post, c),
        frames.deserializes(data, &post, d),
    ensures
        d is Ok <==> c == Ok::<bool, Error>(true),
{
}

/// Whether `sent` counts the bytes that a binary session has taken: driving it takes none, and publishing a run of
/// bytes takes the first of them, as many as the outcome reports.
pub open spec fn counts_sent<S: for<'a> Publish<PublishPayload<'a> = &'a [u8]> + 'static>(
    sent: spec_fn(S) -> Seq<u8>,
) -> bool {
    &&& forall|s: S, post: S, r: Result<DriveOutcome, Error>| #[trigger]
        s.drives(&post, r) ==> sent(post) == sent(s)
    &&& forall|s: S, run: &[u8], post: S, p: Result<PublishOutcome<&[u8]>, Error>| #[trigger]
        s.publishes(run, &post, p) ==> sent(post) == match p {
            Ok(outcome) => sent(s) + run@.take(taken(run@, outcome) as int),
            Err(_) => sent(s),
        }
}

/// Driving a framed session neither loses, repeats nor reorders bytes: the bytes that the underlying session has taken
/// followed by the unsent ones stay the same, whether the drive succeeds or fails.
pub proof fn drive_keeps_bytes<S, DF, SF>(
    pre: FrameDuplex<S, DF, SF>,
    post: FrameDuplex<S, DF, SF>,
    r: Result<DriveOutcome, Error>,
    sent: spec_fn(S) -> Seq<u8>,
) where
    S: for<'a> Publish<PublishPayload<'a> = &'a [u8]> + 'static,
    DF: DeserializeFrame + 'static,
    SF: SerializeFrame + 'static,

    requires
        pre.wf(),
        counts_sent(sent),
        pre.drives(&post, r),
    ensures
        sent(post.inner()) + post.unsent().pending() == sent(pre.inner()) + pre.unsent().pending(),
{
    crate::buffer::position_is_in_storage(pre.unsent());
    driving_keeps_bytes(pre.inner(), pre.unsent(), post.inner(), post.unsent(), r, sent);
}

/// The same of a session that only publishes.
pub proof fn publisher_drive_keeps_bytes<S, F>(
    pre: FramePublisher<S, F>,
    post: FramePublisher<S, F>,
    r: Result<DriveOutcome, Error>,
    sent: spec_fn(S) -> Seq<u8>,
) where S: for<'a> Publish<PublishPayload<'a> = &'a [u8]> + 'static, F: SerializeFrame + 'static
    requires
        pre.wf(),
        counts_sent(sent),
        pre.drives(&post, r),
    ensures
        sent(post.inner()) + post.unsent().pending() == sent(pre.inner()) + pre.unsent().pending(),
        post.serializer() == pre.serializer(),
{
    crate::buffer::position_is_in_storage(pre.unsent());
    driving_keeps_bytes(pre.inner(), pre.unsent(), post.inner(), post.unsent(), r, sent);
}

/// Driving a binary session and handing it unsent bytes neither loses, repeats nor reorders bytes, and keeps the position in
/// the storage of the unsent ones.
pub proof fn driving_keeps_bytes<S: for<'a> Publish<PublishPayload<'a> = &'a [u8]> + 'static>(
    session: S,
    buffer: GrowableCircleBuf,
    post: S,
    post_buffer: GrowableCircleBuf,
    r: Result<DriveOutcome, Error>,
    sent: spec_fn(S) -> Seq<u8>,
)
    requires
        buffer.position() <= buffer.capacity(),
        counts_sent(sent),
        drives_framed(&session, &buffer, &post, &post_buffer, r),
    ensures
        sent(post) + post_buffer.pending() == sent(session) + buffer.pending(),
        post_buffer.capacity() == buffer.capacity(),
        post_buffer.position() <= post_buffer.capacity(),
        post_buffer.pending().len() <= buffer.pending().len(),
        r == Ok::<DriveOutcome, Error>(DriveOutcome::Idle) ==> post_buffer.pending() == buffer.pending(),
        // the first unsent bytes are handed to the session, and what it takes of them is no longer unsent
        r is Ok && buffer.pending().len() > 0 ==> exists|mid: S, run: &[u8], outcome: PublishOutcome<&[u8]>|
            {
                &&& #[trigger] mid.publishes(run, &post, Ok(outcome))
                &&& run@.len() > 0
                &&& run@.is_prefix_of(buffer.pending())
                &&& post_buffer.pending() == buffer.pending().skip(taken(run@, outcome) as int)
            },
        r is Ok ==> exists|mid: S, d: Result<DriveOutcome, Error>| #[trigger] session.drives(&mid, d) && d is Ok,
{
    let (mid, d) = choose|mid: S, d: Result<DriveOutcome, Error>| #[trigger]
        session.drives(&mid, d) && match d {
            Err(e) => r == Err::<DriveOutcome, Error>(e) && post == mid && post_buffer == buffer,
            Ok(o) => if buffer.pending().len() == 0 {
                r == d && post == mid && post_buffer == buffer
            } else {
                sends_run(&mid, &buffer, o, &post, &post_buffer, r)
            },
        };
    if d is Ok && buffer.pending().len() > 0 {
        let o = d->Ok_0;
        let (run, p) = choose|run: &[u8], p: Result<PublishOutcome<&[u8]>, Error>| #[trigger]
            mid.publishes(run, &post, p) && run@ == buffer.next_run() && match p {
                Err(e) => r == Err::<DriveOutcome, Error>(e) && post_buffer == buffer,
                Ok(outcome) => {
                    let n = taken(run@, outcome);
                    &&& buffer.advances(n, &post_buffer)
                    &&& r == Ok::<DriveOutcome, Error>(
                        if n > 0 {
                            DriveOutcome::Active
                        } else {
                            o
                        },
                    )
                },
            };
        crate::buffer::run_is_first_unread(buffer);
        assert(sent(mid) == sent(session));
        match p {
            Ok(outcome) => {
                let n = taken(run@, outcome);
                assert(run@.take(n as int) + post_buffer.pending() =~= buffer.pending());
                assert(sent(post) + post_buffer.pending() =~= sent(mid) + (run@.take(n as int)
                    + post_buffer.pending()));
                vstd::arithmetic::div_mod::lemma_mod_bound(buffer.position() as int + n, buffer.capacity() as int + 1);
                if n == 0 {
                    assert(post_buffer.pending() =~= buffer.pending());
                }
                assert(post_buffer.pending() =~= buffer.pending().skip(n as int));
                assert(mid.publishes(run, &post, Ok(outcome)));
            },
            Err(_) => {},
        }
    }
}

/// Publishing to a framed session adds the whole frame behind all bytes there are, or nothing at all.
pub proof fn publish_adds_frame_or_nothing<S, DF>(
    pre: FrameDuplex<S, DF, U64FrameSerializer>,
    data: &[u8],
    post: FrameDuplex<S, DF, U64FrameSerializer>,
    r: Result<PublishOutcome<&[u8]>, Error>,
    sent: spec_fn(S) -> Seq<u8>,
) where
    S: for<'a> Publish<PublishPayload<'a> = &'a [u8]> + 'static,
    DF: DeserializeFrame + 'static,

    requires
        pre.publishes(data, &post, r),
    ensures
        sent(post.inner()) + post.unsent().pending() == sent(pre.inner()) + pre.unsent().pending()
            + match r {
            Ok(PublishOutcome::Published) => u64_frame(data@),
            _ => Seq::<u8>::empty(),
        },
{
    match r {
        Ok(PublishOutcome::Published) => {},
        _ => {
            assert(post.unsent().pending() =~= pre.unsent().pending());
        },
    }
}

/// Flushing a framed session succeeds only when the underlying session has taken all bytes.
pub proof fn flush_leaves_nothing_unsent<S, DF, SF>(
    pre: FrameDuplex<S, DF, SF>,
    post: FrameDuplex<S, DF, SF>,
    r: Result<(), Error>,
) where
    S: for<'a> Publish<PublishPayload<'a> = &'a [u8]> + Flush + 'static,
    DF: DeserializeFrame + 'static,
    SF: SerializeFrame + 'static,

    requires
        pre.flushes(&post, r),
        r is Ok,
    ensures
        post.unsent().pending().len() == 0,
{
}

/// Whether `incoming` are the bytes that a binary session has yet to give: receiving gives the first of them, or none.
pub open spec fn counts_incoming<S: for<'a> Receive<ReceivePayload<'a> = &'a [u8]> + 'static>(
    incoming: spec_fn(S) -> Seq<u8>,
) -> bool {
    forall|s: S, post: S, x: Result<ReceiveOutcome<&[u8]>, Error>| #[trigger]
        s.receives(&post, x) ==> incoming(s) == match x {
            Ok(ReceiveOutcome::Payload(bytes)) => bytes@ + incoming(post),
            _ => incoming(post),
        }
}

/// The frames of all payloads, one after the other.
pub open spec fn u64_frames(payloads: Seq<Seq<u8>>) -> Seq<u8>
    decreases payloads.len(),
{
    if payloads.len() == 0 {
        Seq::empty()
    } else {
        u64_frame(payloads[0]) + u64_frames(payloads.drop_first())
    }
}

/// Whether a result `r` of receiving is the first of `payloads`, with the frames of the others left in `rest`, or is no
/// payload, with the frames of all of them left; and is an error only when it is one of the underlying session.
pub open spec fn gives_next_payload<S>(
    session: &S,
    post: &S,
    rest: Seq<u8>,
    payloads: Seq<Seq<u8>>,
    r: Result<ReceiveOutcome<&[u8]>, Error>,
) -> bool where S: for<'a> Receive<ReceivePayload<'a> = &'a [u8]> + 'static {
    match r {
        Ok(ReceiveOutcome::Payload(payload)) => {
            &&& payloads.len() > 0
            &&& payload@ == payloads[0]
            &&& rest == u64_frames(payloads.drop_first())
        },
        Ok(_) => rest == u64_frames(payloads),
        Err(e) => session.receives(post, Err(e)) && rest == u64_frames(payloads),
    }
}

/// The step that receiving makes, when the unread bytes followed by those that the session has yet to give are the
/// frames of `payloads`.
proof fn lemma_receives_next_payload<S>(
    session: &S,
    frames: &U64FrameDeserializer,
    unread: Seq<u8>,
    post: &S,
    post_frames: &U64FrameDeserializer,
    post_unread: Seq<u8>,
    r: Result<ReceiveOutcome<&[u8]>, Error>,
    incoming: spec_fn(S) -> Seq<u8>,
    payloads: Seq<Seq<u8>>,
) where S: for<'a> Receive<ReceivePayload<'a> = &'a [u8]> + 'static
    requires
        counts_incoming(incoming),
        forall|i: int| 0 <= i < payloads.len() ==> (#[trigger] payloads[i]).len() + 8 <= usize::MAX,
        unread + incoming(*session) == u64_frames(payloads),
        receives_framed(session, frames, unread, post, post_frames, post_unread, r),
    ensures
        gives_next_payload(session, post, post_unread + incoming(*post), payloads, r),
{
    let all = u64_frames(payloads);
    vstd::bytes::lemma_auto_spec_u64_to_from_le_bytes();
    assert((unread + incoming(*session)).len() == all.len());
    assert(unread =~= all.take(unread.len() as int));
    if unread.len() >= 8 {
        assert(payloads.len() > 0);
        let first = u64_frame(payloads[0]);
        assert(unread.take(8) =~= vstd::bytes::spec_u64_to_le_bytes(payloads[0].len() as u64));
        if unread.len() >= first.len() {
            let rest = unread.skip(first.len() as int);
            assert(unread =~= first + rest);
            assert(unread.subrange(8, first.len() as int) =~= payloads[0]);
            assert(all.skip(first.len() as int) =~= u64_frames(payloads.drop_first()));
            assert(rest + incoming(*session) =~= all.skip(first.len() as int));
        }
    }
    let (mid, c) = choose|mid: U64FrameDeserializer, c: Result<bool, Error>| #[trigger]
        frames.checks(unread, false, &mid, c) && match c {
            Err(e) => {
                &&& r == Err::<ReceiveOutcome<&[u8]>, Error>(e)
                &&& *post == *session
                &&& *post_frames == mid
                &&& post_unread == unread
            },
            Ok(complete) => if complete {
                *post == *session && takes_frame(
                    &mid,
                    unread,
                    post_frames,
                    post_unread,
                    r,
                )
            } else {
                *post_frames == mid && takes_bytes(
                    session,
                    unread,
                    post,
                    post_unread,
                    r,
                )
            },
        };
    if c == Ok::<bool, Error>(false) {
        let x = choose|x: Result<ReceiveOutcome<&[u8]>, Error>| #[trigger]
            session.receives(post, x) && match x {
                Err(e) => r == Err::<ReceiveOutcome<&[u8]>, Error>(e) && post_unread == unread,
                Ok(ReceiveOutcome::Payload(bytes)) => {
                    &&& r == Ok::<ReceiveOutcome<&[u8]>, Error>(ReceiveOutcome::Buffered)
                    &&& post_unread == unread + bytes@
                },
                Ok(ReceiveOutcome::Buffered) => {
                    &&& r == Ok::<ReceiveOutcome<&[u8]>, Error>(ReceiveOutcome::Buffered)
                    &&& post_unread == unread
                },
                Ok(ReceiveOutcome::Idle) => {
                    &&& r == Ok::<ReceiveOutcome<&[u8]>, Error>(ReceiveOutcome::Idle)
                    &&& post_unread == unread
                },
            };
        if let Ok(ReceiveOutcome::Payload(bytes)) = x {
            assert(post_unread + incoming(*post) =~= unread + (bytes@ + incoming(*post)));
        }
    }
}

/// Received payloads are the published ones, in their order: when the unread bytes followed by those that the
/// underlying session has yet to give are the frames of `payloads`, then receiving gives the first of `payloads` and
/// leaves the frames of the others, or gives none and leaves them all. However the bytes are cut into reads makes no
/// difference. Receiving fails only when the underlying session does.
pub proof fn receiver_gives_next_payload<S>(
    pre: FrameReceiver<S, U64FrameDeserializer>,
    post: FrameReceiver<S, U64FrameDeserializer>,
    r: Result<ReceiveOutcome<&[u8]>, Error>,
    incoming: spec_fn(S) -> Seq<u8>,
    payloads: Seq<Seq<u8>>,
) where
    S: for<'a> Receive<ReceivePayload<'a> = &'a [u8]> + 'static,

    requires
        counts_incoming(incoming),
        forall|i: int| 0 <= i < payloads.len() ==> (#[trigger] payloads[i]).len() + 8 <= usize::MAX,
        pre.unread() + incoming(pre.inner()) == u64_frames(payloads),
        pre.receives(&post, r),
    ensures
        gives_next_payload(
            &pre.inner(),
            &post.inner(),
            post.unread() + incoming(post.inner()),
            payloads,
            r,
        ),
{
    lemma_receives_next_payload(
        &pre.inner(),
        &pre.deserializer(),
        pre.unread(),
        &post.inner(),
        &post.deserializer(),
        post.unread(),
        r,
        incoming,
        payloads,
    );
}

/// Received payloads are the published ones, in their order, for a bi-directional session as for a receiving one.
pub proof fn duplex_gives_next_payload<S, SF>(
    pre: FrameDuplex<S, U64FrameDeserializer, SF>,
    post: FrameDuplex<S, U64FrameDeserializer, SF>,
    r: Result<ReceiveOutcome<&[u8]>, Error>,
    incoming: spec_fn(S) -> Seq<u8>,
    payloads: Seq<Seq<u8>>,
) where
    S: for<'a> Publish<PublishPayload<'a> = &'a [u8]> + for<'a> Receive<
        ReceivePayload<'a> = &'a [u8],
    > + 'static,
    SF: SerializeFrame + 'static,

    requires
        counts_incoming(incoming),
        forall|i: int| 0 <= i < payloads.len() ==> (#[trigger] payloads[i]).len() + 8 <= usize::MAX,
        pre.unread() + incoming(pre.inner()) == u64_frames(payloads),
        pre.receives(&post, r),
    ensures
        gives_next_payload(
            &pre.inner(),
            &post.inner(),
            post.unread() + incoming(post.inner()),
            payloads,
            r,
        ),
{
    lemma_receives_next_payload(
        &pre.inner(),
        &pre.deserializer(),
        pre.unread(),
        &post.inner(),
        &post.deserializer(),
        post.unread(),
        r,
        incoming,
        payloads,
    );
}

/// A new [`FrameReceiver`] has nothing buffered: it is in the status of its session, and its first receive checks no bytes
/// for a frame and, when there is none in them, asks the session.
pub proof fn new_receiver_starts_with_nothing<S, F>(
    session: S,
    frames: F,
    receiver: FrameReceiver<S, F>,
    post: FrameReceiver<S, F>,
    r: Result<ReceiveOutcome<F::DeserializedFrame<'_>>, Error>,
) where S: for<'a> Receive<ReceivePayload<'a> = &'a [u8]> + 'static, F: DeserializeFrame + 'static
    requires
        receiver.inner() == session,
        receiver.deserializer() == frames,
        receiver.unread() == Seq::<u8>::empty(),
        receiver.receives(&post, r),
    ensures
        receiver.in_status() == session.in_status(),
        exists|mid: F, c: Result<bool, Error>| #[trigger]
            frames.checks(Seq::<u8>::empty(), false, &mid, c) && (c == Ok::<bool, Error>(false)
                ==> post.deserializer() == mid && takes_bytes(
                &session,
                Seq::<u8>::empty(),
                &post.inner(),
                post.unread(),
                r,
            )),
{
}

/// A call on a framed session that publishes: driving it, or publishing a payload, and the result.
pub enum PublisherCall<'a> {
    Drive(Result<DriveOutcome, Error>),
    Publish(&'a [u8], Result<PublishOutcome<&'a [u8]>, Error>),
}

/// The payloads that were published, in their order.
pub open spec fn published(calls: Seq<PublisherCall>) -> Seq<Seq<u8>>
    decreases calls.len(),
{
    if calls.len() == 0 {
        Seq::empty()
    } else {
        match calls.last() {
            PublisherCall::Publish(data, Ok(PublishOutcome::Published)) => published(
                calls.drop_last(),
            ).push(data@),
            _ => published(calls.drop_last()),
        }
    }
}

/// Whether each of `calls` may lead from one of `sessions` to the next.
pub open spec fn publishes_all<S, DF>(
    sessions: Seq<FrameDuplex<S, DF, U64FrameSerializer>>,
    calls: Seq<PublisherCall>,
) -> bool where
    S: for<'a> Publish<PublishPayload<'a> = &'a [u8]> + 'static,
    DF: DeserializeFrame + 'static,
 {
    &&& sessions.len() == calls.len() + 1
    &&& forall|i: int| 0 <= i < sessions.len() ==> (#[trigger] sessions[i]).wf()
    &&& forall|i: int|
        0 <= i < calls.len() ==> match #[trigger] calls[i] {
            PublisherCall::Drive(r) => sessions[i].drives(&sessions[i + 1], r),
            PublisherCall::Publish(data, r) => sessions[i].publishes(data, &sessions[i + 1], r),
        }
}

/// The frames of payloads with one more behind them.
proof fn lemma_frames_push(payloads: Seq<Seq<u8>>, payload: Seq<u8>)
    ensures
        u64_frames(payloads.push(payload)) == u64_frames(payloads) + u64_frame(payload),
    decreases payloads.len(),
{
    if payloads.len() == 0 {
        assert(payloads.push(payload).drop_first() =~= payloads);
        assert(u64_frames(payloads.push(payload)) =~= u64_frames(payloads) + u64_frame(payload));
    } else {
        assert(payloads.push(payload).drop_first() =~= payloads.drop_first().push(payload));
        lemma_frames_push(payloads.drop_first(), payload);
        assert(u64_frames(payloads.push(payload)) =~= u64_frames(payloads) + u64_frame(payload));
    }
}

/// What a framed session sends is the frames of the published payloads, in their order and with nothing else: those that
/// the underlying session has taken, followed by the unsent ones.
pub proof fn published_frames_are_sent_in_order<S, DF>(
    sessions: Seq<FrameDuplex<S, DF, U64FrameSerializer>>,
    calls: Seq<PublisherCall>,
    sent: spec_fn(S) -> Seq<u8>,
) where
    S: for<'a> Publish<PublishPayload<'a> = &'a [u8]> + 'static,
    DF: DeserializeFrame + 'static,

    requires
        counts_sent(sent),
        publishes_all(sessions, calls),
        sent(sessions[0].inner()) + sessions[0].unsent().pending() == Seq::<u8>::empty(),
    ensures
        sent(sessions.last().inner()) + sessions.last().unsent().pending() == u64_frames(published(calls)),
        forall|i: int|
            0 <= i < published(calls).len() ==> (#[trigger] published(calls)[i]).len() + 8 <= usize::MAX,
    decreases calls.len(),
{
    if calls.len() > 0 {
        let n = calls.len() - 1;
        let before = sessions.drop_last();
        assert forall|i: int| 0 <= i < calls.drop_last().len() implies match #[trigger] calls.drop_last()[i] {
            PublisherCall::Drive(r) => before[i].drives(&before[i + 1], r),
            PublisherCall::Publish(data, r) => before[i].publishes(data, &before[i + 1], r),
        } by {
            assert(calls.drop_last()[i] == calls[i]);
        }
        published_frames_are_sent_in_order(before, calls.drop_last(), sent);
        assert(before.last() == sessions[n as int]);
        assert(sessions.last() == sessions[n + 1]);
        assert(calls[n as int] == calls.last());
        match calls.last() {
            PublisherCall::Drive(r) => {
                drive_keeps_bytes(sessions[n as int], sessions[n + 1], r, sent);
            },
            PublisherCall::Publish(data, r) => {
                publish_adds_frame_or_nothing(sessions[n as int], data, sessions[n + 1], r, sent);
                lemma_frames_push(published(calls.drop_last()), data@);
            },
        }
    }
}

/// The payloads that were received, in their order.
pub open spec fn received(results: Seq<Option<Result<ReceiveOutcome<&[u8]>, Error>>>) -> Seq<Seq<u8>>
    decreases results.len(),
{
    if results.len() == 0 {
        Seq::empty()
    } else {
        match results.last() {
            Some(Ok(ReceiveOutcome::Payload(payload))) => received(results.drop_last()).push(payload@),
            _ => received(results.drop_last()),
        }
    }
}

/// Whether each of `results` may be that of receiving from one of `sessions`, which leads to the next, or is nothing when
/// another call was made, which keeps the unread bytes and those that the underlying session has yet to give.
pub open spec fn receives_all<S, SF>(
    sessions: Seq<FrameDuplex<S, U64FrameDeserializer, SF>>,
    results: Seq<Option<Result<ReceiveOutcome<&[u8]>, Error>>>,
    incoming: spec_fn(S) -> Seq<u8>,
) -> bool where
    S: for<'a> Publish<PublishPayload<'a> = &'a [u8]> + for<'a> Receive<
        ReceivePayload<'a> = &'a [u8],
    > + 'static,
    SF: SerializeFrame + 'static,
 {
    &&& sessions.len() == results.len() + 1
    &&& forall|i: int|
        0 <= i < results.len() ==> match #[trigger] results[i] {
            Some(r) => sessions[i].receives(&sessions[i + 1], r),
            None => sessions[i + 1].unread() == sessions[i].unread() && incoming(
                sessions[i + 1].inner(),
            ) == incoming(sessions[i].inner()),
        }
}

/// A run of receives gives the first of the payloads whose frames there are, in their order, and leaves the frames of the
/// others, however the bytes are cut into reads.
pub proof fn received_payloads_are_in_order<S, SF>(
    sessions: Seq<FrameDuplex<S, U64FrameDeserializer, SF>>,
    results: Seq<Option<Result<ReceiveOutcome<&[u8]>, Error>>>,
    incoming: spec_fn(S) -> Seq<u8>,
    payloads: Seq<Seq<u8>>,
) where
    S: for<'a> Publish<PublishPayload<'a> = &'a [u8]> + for<'a> Receive<
        ReceivePayload<'a> = &'a [u8],
    > + 'static,
    SF: SerializeFrame + 'static,

    requires
        counts_incoming(incoming),
        forall|i: int| 0 <= i < payloads.len() ==> (#[trigger] payloads[i]).len() + 8 <= usize::MAX,
        receives_all(sessions, results, incoming),
        sessions[0].unread() + incoming(sessions[0].inner()) == u64_frames(payloads),
    ensures
        received(results).is_prefix_of(payloads),
        sessions.last().unread() + incoming(sessions.last().inner()) == u64_frames(
            payloads.skip(received(results).len() as int),
        ),
    decreases results.len(),
{
    if results.len() == 0 {
        assert(payloads.skip(0) =~= payloads);
    } else {
        let n = results.len() - 1;
        let before = sessions.drop_last();
        assert forall|i: int| 0 <= i < results.drop_last().len() implies match #[trigger] results.drop_last()[i] {
            Some(r) => before[i].receives(&before[i + 1], r),
            None => before[i + 1].unread() == before[i].unread() && incoming(before[i + 1].inner())
                == incoming(before[i].inner()),
        } by {
            assert(results.drop_last()[i] == results[i]);
        }
        received_payloads_are_in_order(before, results.drop_last(), incoming, payloads);
        let got = received(results.drop_last());
        let rest = payloads.skip(got.len() as int);
        assert(before.last() == sessions[n as int]);
        assert(sessions.last() == sessions[n + 1]);
        assert(results[n as int] == results.last());
        if let Some(r) = results.last() {
            duplex_gives_next_payload(sessions[n as int], sessions[n + 1], r, incoming, rest);
            if let Ok(ReceiveOutcome::Payload(payload)) = r {
                assert(rest[0] == payloads[got.len() as int]);
                assert(rest.drop_first() =~= payloads.skip(got.len() as int + 1));
                assert(got.push(payload@) =~= payloads.take(got.len() as int + 1));
            }
        }
    }
}

/// Payloads come out as they went in: when the bytes that the underlying session of a framed session has taken are those
/// that the underlying session of its peer gives, however they are cut into reads, then the payloads that the peer receives
/// are the first of those that were published, in their order, and are all of them when nothing is left on the way. None is
/// lost, repeated, split, merged or reordered, whatever their lengths.
pub proof fn published_payloads_are_received<S, DF, P, SF>(
    sessions: Seq<FrameDuplex<S, DF, U64FrameSerializer>>,
    calls: Seq<PublisherCall>,
    sent: spec_fn(S) -> Seq<u8>,
    peers: Seq<FrameDuplex<P, U64FrameDeserializer, SF>>,
    results: Seq<Option<Result<ReceiveOutcome<&[u8]>, Error>>>,
    incoming: spec_fn(P) -> Seq<u8>,
) where
    S: for<'a> Publish<PublishPayload<'a> = &'a [u8]> + 'static,
    DF: DeserializeFrame + 'static,
    P: for<'a> Publish<PublishPayload<'a> = &'a [u8]> + for<'a> Receive<
        ReceivePayload<'a> = &'a [u8],
    > + 'static,
    SF: SerializeFrame + 'static,

    requires
        counts_sent(sent),
        publishes_all(sessions, calls),
        sent(sessions[0].inner()) + sessions[0].unsent().pending() == Seq::<u8>::empty(),
        counts_incoming(incoming),
        receives_all(peers, results, incoming),
        peers[0].unread() == Seq::<u8>::empty(),
        incoming(peers[0].inner()) == sent(sessions.last().inner()),
    ensures
        received(results).is_prefix_of(published(calls)),
        sessions.last().unsent().pending().len() == 0 && peers.last().unread().len() == 0 && incoming(
            peers.last().inner(),
        ).len() == 0 ==> received(results) == published(calls),
{
    published_frames_are_sent_in_order(sessions, calls, sent);
    let unsent = sessions.last().unsent().pending();
    // the unsent bytes are those that the peer is yet to be given
    let all = |s: P| incoming(s) + unsent;
    assert forall|s: P, post: P, x: Result<ReceiveOutcome<&[u8]>, Error>| #[trigger]
        s.receives(&post, x) implies all(s) == match x {
        Ok(ReceiveOutcome::Payload(bytes)) => bytes@ + all(post),
        _ => all(post),
    } by {
        if let Ok(ReceiveOutcome::Payload(bytes)) = x {
            assert(all(s) =~= bytes@ + all(post));
        }
    }
    assert(counts_incoming(all));
    assert(receives_all(peers, results, all)) by {
        assert forall|i: int| 0 <= i < results.len() implies match #[trigger] results[i] {
            Some(r) => peers[i].receives(&peers[i + 1], r),
            None => peers[i + 1].unread() == peers[i].unread() && all(peers[i + 1].inner()) == all(
                peers[i].inner(),
            ),
        } by {}
    }
    assert(peers[0].unread() + all(peers[0].inner()) =~= u64_frames(published(calls)));
    received_payloads_are_in_order(peers, results, all, published(calls));
    let rest = published(calls).skip(received(results).len() as int);
    if rest.len() > 0 {
        assert(u64_frames(rest).len() >= u64_frame(rest[0]).len());
        vstd::bytes::lemma_auto_spec_u64_to_from_le_bytes();
    } else {
        assert(received(results) =~= published(calls));
    }
}

/// The next unsent byte is in the storage of the unsent bytes.
pub proof fn unsent_position_is_in_storage<S, DF, SF>(session: FrameDuplex<S, DF, SF>) where
    S: for<'a> Publish<PublishPayload<'a> = &'a [u8]> + 'static,
    DF: DeserializeFrame + 'static,
    SF: SerializeFrame + 'static,

    requires
        session.wf(),
    ensures
        session.unsent().position() <= session.unsent().capacity(),
{
    crate::buffer::position_is_in_storage(session.unsent());
}

/// A session that reports a run as published took all of it; one that hands a rest back took what is before the rest.
pub proof fn rest_was_not_taken(run: Seq<u8>, rest: &[u8])
    ensures
        taken(run, PublishOutcome::Published) == run.len(),
        rest@.len() <= run.len() ==> taken(run, PublishOutcome::Incomplete(rest)) + rest@.len() == run.len(),
        rest@.is_suffix_of(run) ==> run.take(taken(run, PublishOutcome::Incomplete(rest)) as int) + rest@ == run,
        taken(run, PublishOutcome::Incomplete(rest)) <= run.len(),
{
    if rest@.is_suffix_of(run) {
        assert(run.take(run.len() - rest@.len()) + rest@ =~= run);
    }
}

/// A frame starts with the length of the payload in eight bytes, the lowest first, and has the payload behind them.
pub proof fn u64_frame_is_length_and_payload(payload: Seq<u8>, i: int)
    requires
        payload.len() <= u64::MAX,
        0 <= i < payload.len(),
    ensures
        u64_frame(payload).len() == 8 + payload.len(),
        u64_frame(payload)[0] == payload.len() % 256,
        u64_frame(payload)[1] == payload.len() / 256 % 256,
        u64_frame(payload)[2] == payload.len() / 65536 % 256,
        u64_frame(payload)[3] == payload.len() / 16777216 % 256,
        u64_frame(payload)[4] == payload.len() / 4294967296 % 256,
        u64_frame(payload)[5] == payload.len() / 1099511627776 % 256,
        u64_frame(payload)[6] == payload.len() / 281474976710656 % 256,
        u64_frame(payload)[7] == payload.len() / 72057594037927936 % 256,
        u64_frame(payload)[8 + i] == payload[i],
{
    let x = payload.len() as u64;
    vstd::bytes::lemma_auto_spec_u64_to_from_le_bytes();
    vstd::bytes::spec_u64_to_le_bytes_to_open(x);
    assert((x & 0xff) as u8 == x % 256) by (bit_vector);
    assert(((x >> 8) & 0xff) as u8 == x / 256 % 256) by (bit_vector);
    assert(((x >> 16) & 0xff) as u8 == x / 65536 % 256) by (bit_vector);
    assert(((x >> 24) & 0xff) as u8 == x / 16777216 % 256) by (bit_vector);
    assert(((x >> 32) & 0xff) as u8 == x / 4294967296 % 256) by (bit_vector);
    assert(((x >> 40) & 0xff) as u8 == x / 1099511627776 % 256) by (bit_vector);
    assert(((x >> 48) & 0xff) as u8 == x / 281474976710656 % 256) by (bit_vector);
    assert(((x >> 56) & 0xff) as u8 == x / 72057594037927936 % 256) by (bit_vector);
}

/// A frame is not published to a session that is not established, and changes nothing of it.
pub proof fn only_established_duplex_publishes<'a, S, DF, SF>(
    pre: FrameDuplex<S, DF, SF>,
    frame: SF::SerializedFrame<'a>,
    post: FrameDuplex<S, DF, SF>,
    r: Result<PublishOutcome<SF::SerializedFrame<'a>>, Error>,
) where
    S: for<'b> Publish<PublishPayload<'b> = &'b [u8]> + 'static,
    DF: DeserializeFrame + 'static,
    SF: SerializeFrame + 'static,

    requires
        pre.publishes(frame, &post, r),
    ensures
        post.inner() == pre.inner(),
        post.deserializer() == pre.deserializer(),
        post.unread() == pre.unread(),
        pre.inner().in_status() != SessionStatus::Established ==> crate::error::fails(
            r,
            ErrorKind::NotConnected,
            "underlying session is not established"@,
        ) && post.unsent() == pre.unsent() && post.serializer() == pre.serializer(),
        pre.inner().in_status() == SessionStatus::Established ==> pre.serializer().serializes(
            frame,
            &pre.unsent(),
            &post.serializer(),
            &post.unsent(),
            r,
        ),
{
}

/// The same of a session that only publishes: a payload is added as a whole frame behind all bytes there are, or nothing is
/// changed, and it is not published to a session that is not established.
pub proof fn publisher_adds_frame_or_nothing<S>(
    pre: FramePublisher<S, U64FrameSerializer>,
    data: &[u8],
    post: FramePublisher<S, U64FrameSerializer>,
    r: Result<PublishOutcome<&[u8]>, Error>,
) where S: for<'a> Publish<PublishPayload<'a> = &'a [u8]> + 'static
    requires
        pre.publishes(data, &post, r),
    ensures
        post.inner() == pre.inner(),
        match r {
            Ok(PublishOutcome::Published) => post.unsent().pending() == pre.unsent().pending() + u64_frame(data@),
            Ok(PublishOutcome::Incomplete(rest)) => rest == data && post.unsent() == pre.unsent()
                && pre.unsent().pending().len() > 0,
            Err(_) => post.unsent() == pre.unsent(),
        },
        pre.inner().in_status() != SessionStatus::Established ==> r is Err,
        pre.inner().in_status() == SessionStatus::Established && data@.len() + 8 <= usize::MAX ==> r is Ok,
{
}

/// Any number of drives neither lose, repeat nor reorder bytes.
proof fn lemma_drained_keeps_bytes<S: for<'a> Publish<PublishPayload<'a> = &'a [u8]> + 'static>(
    session: S,
    buffer: GrowableCircleBuf,
    n: nat,
    post: S,
    post_buffer: GrowableCircleBuf,
    sent: spec_fn(S) -> Seq<u8>,
)
    requires
        buffer.position() <= buffer.capacity(),
        counts_sent(sent),
        drained(&session, &buffer, n, &post, &post_buffer),
    ensures
        sent(post) + post_buffer.pending() == sent(session) + buffer.pending(),
        post_buffer.position() <= post_buffer.capacity(),
    decreases n,
{
    if n > 0 {
        let (mid, mid_buffer, o) = choose|mid: S, mid_buffer: GrowableCircleBuf, o: DriveOutcome|
            drained(&session, &buffer, (n - 1) as nat, &mid, &mid_buffer) && mid_buffer.pending().len() > 0
                && #[trigger] drives_framed(&mid, &mid_buffer, &post, &post_buffer, Ok(o));
        lemma_drained_keeps_bytes(session, buffer, (n - 1) as nat, mid, mid_buffer, sent);
        driving_keeps_bytes(mid, mid_buffer, post, post_buffer, Ok(o), sent);
    }
}

/// Flushing a framed session hands all unsent bytes to the underlying session, in their order and once, when it succeeds;
/// the underlying session is flushed when it has them. Flushing the underlying session is taken to send none.
pub proof fn flush_sends_all_bytes<S, DF, SF>(
    pre: FrameDuplex<S, DF, SF>,
    post: FrameDuplex<S, DF, SF>,
    r: Result<(), Error>,
    sent: spec_fn(S) -> Seq<u8>,
) where
    S: for<'a> Publish<PublishPayload<'a> = &'a [u8]> + Flush + 'static,
    DF: DeserializeFrame + 'static,
    SF: SerializeFrame + 'static,

    requires
        pre.wf(),
        counts_sent(sent),
        forall|s: S, t: S, x: Result<(), Error>| #[trigger] s.flushes(&t, x) ==> sent(t) == sent(s),
        pre.flushes(&post, r),
    ensures
        sent(post.inner()) + post.unsent().pending() == sent(pre.inner()) + pre.unsent().pending(),
        r is Ok ==> sent(post.inner()) == sent(pre.inner()) + pre.unsent().pending(),
        r is Ok ==> exists|mid: S| #[trigger] mid.flushes(&post.inner(), r) && sent(mid) == sent(post.inner()),
        post.unread() == pre.unread(),
{
    unsent_position_is_in_storage(pre);
    lemma_flush_keeps_bytes(pre.inner(), pre.unsent(), post.inner(), post.unsent(), r, sent);
}

/// The same of a session that only publishes.
pub proof fn publisher_flush_sends_all_bytes<S, F>(
    pre: FramePublisher<S, F>,
    post: FramePublisher<S, F>,
    r: Result<(), Error>,
    sent: spec_fn(S) -> Seq<u8>,
) where S: for<'a> Publish<PublishPayload<'a> = &'a [u8]> + Flush + 'static, F: SerializeFrame + 'static
    requires
        pre.wf(),
        counts_sent(sent),
        forall|s: S, t: S, x: Result<(), Error>| #[trigger] s.flushes(&t, x) ==> sent(t) == sent(s),
        pre.flushes(&post, r),
    ensures
        sent(post.inner()) + post.unsent().pending() == sent(pre.inner()) + pre.unsent().pending(),
        r is Ok ==> sent(post.inner()) == sent(pre.inner()) + pre.unsent().pending(),
        r is Ok ==> exists|mid: S| #[trigger] mid.flushes(&post.inner(), r) && sent(mid) == sent(post.inner()),
{
    crate::buffer::position_is_in_storage(pre.unsent());
    lemma_flush_keeps_bytes(pre.inner(), pre.unsent(), post.inner(), post.unsent(), r, sent);
}

proof fn lemma_flush_keeps_bytes<S: for<'a> Publish<PublishPayload<'a> = &'a [u8]> + Flush + 'static>(
    session: S,
    buffer: GrowableCircleBuf,
    post: S,
    post_buffer: GrowableCircleBuf,
    r: Result<(), Error>,
    sent: spec_fn(S) -> Seq<u8>,
)
    requires
        buffer.position() <= buffer.capacity(),
        counts_sent(sent),
        forall|s: S, t: S, x: Result<(), Error>| #[trigger] s.flushes(&t, x) ==> sent(t) == sent(s),
        flushes_framed(&session, &buffer, &post, &post_buffer, r),
    ensures
        sent(post) + post_buffer.pending() == sent(session) + buffer.pending(),
        r is Ok ==> sent(post) == sent(session) + buffer.pending(),
        r is Ok ==> exists|mid: S| #[trigger] mid.flushes(&post, r) && sent(mid) == sent(post),
{
    let (n, mid, mid_buffer) = choose|n: nat, mid: S, mid_buffer: GrowableCircleBuf| #[trigger]
        drained(&session, &buffer, n, &mid, &mid_buffer) && if mid_buffer.pending().len() == 0 {
            mid.flushes(&post, r) && post_buffer == mid_buffer
        } else if n < u64::MAX {
            r matches Err(e) && drives_framed(&mid, &mid_buffer, &post, &post_buffer, Err(e))
        } else {
            crate::error::fails(r, ErrorKind::TimedOut, "unsent bytes remain"@) && post == mid && post_buffer
                == mid_buffer
        };
    lemma_drained_keeps_bytes(session, buffer, n, mid, mid_buffer, sent);
    if mid_buffer.pending().len() == 0 {
        assert(sent(post) + post_buffer.pending() =~= sent(post));
    } else if n < u64::MAX {
        driving_keeps_bytes(mid, mid_buffer, post, post_buffer, Err(r->Err_0), sent);
    }
}

/// Receiving neither loses, repeats nor reorders bytes, whatever the frames are: the unread bytes followed by those that the
/// underlying session has yet to give are the same, but for those of a frame that is given, which are the first of them. The
/// frame is the one that is deserialized of the unread bytes, and the underlying session is asked for bytes only when there
/// is none.
pub proof fn receiving_keeps_bytes<'a, S, DF>(
    session: S,
    frames: DF,
    unread: Seq<u8>,
    post: S,
    post_frames: DF,
    post_unread: Seq<u8>,
    r: Result<ReceiveOutcome<DF::DeserializedFrame<'a>>, Error>,
    incoming: spec_fn(S) -> Seq<u8>,
) where S: for<'b> Receive<ReceivePayload<'b> = &'b [u8]> + 'static, DF: DeserializeFrame + 'static
    requires
        counts_incoming(incoming),
        receives_framed(&session, &frames, unread, &post, &post_frames, post_unread, r),
    ensures
        match r {
            Ok(ReceiveOutcome::Payload(frame)) => {
                &&& post == session
                &&& exists|mid: DF, sized: SizedFrame<DF::DeserializedFrame<'a>>|
                    {
                        &&& frames.checks(unread, false, &mid, Ok(true))
                        &&& #[trigger] mid.deserializes(unread, &post_frames, Ok(sized))
                        &&& sized.frame == frame
                        &&& sized.size <= unread.len()
                        &&& unread == unread.take(sized.size as int) + post_unread
                    }
            },
            _ => post_unread + incoming(post) == unread + incoming(session),
        },
        post_unread != unread && !(r matches Ok(outcome) && outcome is Payload) ==> {
            &&& unread.is_prefix_of(post_unread)
            &&& r == Ok::<ReceiveOutcome<DF::DeserializedFrame<'a>>, Error>(ReceiveOutcome::Buffered)
        },
        (r matches Ok(outcome) && !(outcome is Payload)) ==> frames.checks(unread, false, &post_frames, Ok(false)),
        r matches Ok(ReceiveOutcome::Idle) ==> session.receives(&post, Ok(ReceiveOutcome::Idle)) && post_unread == unread,
        r matches Ok(ReceiveOutcome::Buffered) ==> exists|x: ReceiveOutcome<&[u8]>| #[trigger]
            session.receives(&post, Ok(x)) && match x {
                ReceiveOutcome::Payload(bytes) => post_unread == unread + bytes@,
                ReceiveOutcome::Buffered => post_unread == unread,
                ReceiveOutcome::Idle => false,
            },
{
    let (mid, c) = choose|mid: DF, c: Result<bool, Error>| #[trigger]
        frames.checks(unread, false, &mid, c) && match c {
            Err(e) => {
                &&& r == Err::<ReceiveOutcome<DF::DeserializedFrame<'a>>, Error>(e)
                &&& post == session
                &&& post_frames == mid
                &&& post_unread == unread
            },
            Ok(complete) => if complete {
                post == session && takes_frame(&mid, unread, &post_frames, post_unread, r)
            } else {
                post_frames == mid && takes_bytes(&session, unread, &post, post_unread, r)
            },
        };
    if c == Ok::<bool, Error>(true) {
        let d = choose|d: Result<SizedFrame<DF::DeserializedFrame<'a>>, Error>| #[trigger]
            mid.deserializes(unread, &post_frames, d) && match d {
                Err(e) => {
                    &&& r == Err::<ReceiveOutcome<DF::DeserializedFrame<'a>>, Error>(e)
                    &&& post_unread == unread
                },
                Ok(sized) => {
                    &&& r == Ok::<ReceiveOutcome<DF::DeserializedFrame<'a>>, Error>(
                        ReceiveOutcome::Payload(sized.frame),
                    )
                    &&& sized.size <= unread.len()
                    &&& post_unread == unread.skip(sized.size as int)
                },
            };
        if let Ok(sized) = d {
            assert(mid.deserializes(unread, &post_frames, Ok(sized)));
            assert(unread =~= unread.take(sized.size as int) + unread.skip(sized.size as int));
        }
    } else if c == Ok::<bool, Error>(false) {
        let x = choose|x: Result<ReceiveOutcome<&[u8]>, Error>| #[trigger]
            session.receives(&post, x) && match x {
                Err(e) => r == Err::<ReceiveOutcome<DF::DeserializedFrame<'a>>, Error>(e) && post_unread == unread,
                Ok(ReceiveOutcome::Payload(bytes)) => {
                    &&& r == Ok::<ReceiveOutcome<DF::DeserializedFrame<'a>>, Error>(ReceiveOutcome::Buffered)
                    &&& post_unread == unread + bytes@
                },
                Ok(ReceiveOutcome::Buffered) => {
                    &&& r == Ok::<ReceiveOutcome<DF::DeserializedFrame<'a>>, Error>(ReceiveOutcome::Buffered)
                    &&& post_unread == unread
                },
                Ok(ReceiveOutcome::Idle) => {
                    &&& r == Ok::<ReceiveOutcome<DF::DeserializedFrame<'a>>, Error>(ReceiveOutcome::Idle)
                    &&& post_unread == unread
                },
            };
        if let Ok(outcome) = x {
            assert(session.receives(&post, Ok(outcome)));
        }
        if let Ok(ReceiveOutcome::Payload(bytes)) = x {
            assert(post_unread + incoming(post) =~= unread + (bytes@ + incoming(post)));
        }
    }
}

/// A payload is published to an established session when there is space for its frame, and at once when nothing is unsent.
/// Otherwise it is handed back as it is.
pub proof fn payload_is_published_when_there_is_space<S, DF>(
    pre: FrameDuplex<S, DF, U64FrameSerializer>,
    data: &[u8],
    post: FrameDuplex<S, DF, U64FrameSerializer>,
    r: Result<PublishOutcome<&[u8]>, Error>,
) where
    S: for<'a> Publish<PublishPayload<'a> = &'a [u8]> + 'static,
    DF: DeserializeFrame + 'static,

    requires
        pre.inner().in_status() == SessionStatus::Established,
        data@.len() + 8 <= usize::MAX,
        pre.publishes(data, &post, r),
    ensures
        pre.unsent().accepts(8 + data@.len()) ==> r == Ok::<PublishOutcome<&[u8]>, Error>(PublishOutcome::Published),
        !pre.unsent().accepts(8 + data@.len()) ==> r == Ok::<PublishOutcome<&[u8]>, Error>(
            PublishOutcome::Incomplete(data),
        ),
        pre.unsent().pending().len() == 0 ==> r == Ok::<PublishOutcome<&[u8]>, Error>(PublishOutcome::Published),
{
    vstd::bytes::lemma_auto_spec_u64_to_from_le_bytes();
    assert(u64_frame(data@).len() == 8 + data@.len());
}

/// A frame whose bytes were all received is given at once, and the session is not asked for more.
pub proof fn complete_frame_is_given_at_once<S, SF>(
    pre: FrameDuplex<S, U64FrameDeserializer, SF>,
    payload: Seq<u8>,
    rest: Seq<u8>,
    post: FrameDuplex<S, U64FrameDeserializer, SF>,
    r: Result<ReceiveOutcome<&[u8]>, Error>,
) where
    S: for<'a> Publish<PublishPayload<'a> = &'a [u8]> + for<'a> Receive<
        ReceivePayload<'a> = &'a [u8],
    > + 'static,
    SF: SerializeFrame + 'static,

    requires
        payload.len() + 8 <= usize::MAX,
        pre.unread() == u64_frame(payload) + rest,
        pre.receives(&post, r),
    ensures
        r matches Ok(ReceiveOutcome::Payload(x)) && x@ == payload,
        post.unread() == rest,
        post.inner() == pre.inner(),
{
    let unread = pre.unread();
    vstd::bytes::lemma_auto_spec_u64_to_from_le_bytes();
    assert(unread.take(8) =~= vstd::bytes::spec_u64_to_le_bytes(payload.len() as u64));
    assert(unread.subrange(8, 8 + payload.len() as int) =~= payload);
    assert(unread.skip(8 + payload.len() as int) =~= rest);
}

/// The same of a session that only receives.
pub proof fn receiver_gives_complete_frame_at_once<S>(
    pre: FrameReceiver<S, U64FrameDeserializer>,
    payload: Seq<u8>,
    rest: Seq<u8>,
    post: FrameReceiver<S, U64FrameDeserializer>,
    r: Result<ReceiveOutcome<&[u8]>, Error>,
) where S: for<'a> Receive<ReceivePayload<'a> = &'a [u8]> + 'static
    requires
        payload.len() + 8 <= usize::MAX,
        pre.unread() == u64_frame(payload) + rest,
        pre.receives(&post, r),
    ensures
        r matches Ok(ReceiveOutcome::Payload(x)) && x@ == payload,
        post.unread() == rest,
        post.inner() == pre.inner(),
{
    let unread = pre.unread();
    vstd::bytes::lemma_auto_spec_u64_to_from_le_bytes();
    assert(unread.take(8) =~= vstd::bytes::spec_u64_to_le_bytes(payload.len() as u64));
    assert(unread.subrange(8, 8 + payload.len() as int) =~= payload);
    assert(unread.skip(8 + payload.len() as int) =~= rest);
}

/// Receiving from a framed session takes from its unread bytes and its underlying session, whatever the frames are, and
/// changes nothing of what is unsent.
pub proof fn receiving_is_apart_from_publishing<'a, S, DF, SF>(
    pre: FrameDuplex<S, DF, SF>,
    post: FrameDuplex<S, DF, SF>,
    r: Result<ReceiveOutcome<DF::DeserializedFrame<'a>>, Error>,
    driven: FrameDuplex<S, DF, SF>,
    d: Result<DriveOutcome, Error>,
    closed: FrameDuplex<S, DF, SF>,
) where
    S: for<'b> Publish<PublishPayload<'b> = &'b [u8]> + for<'b> Receive<
        ReceivePayload<'b> = &'b [u8],
    > + 'static,
    DF: DeserializeFrame + 'static,
    SF: SerializeFrame + 'static,

    requires
        pre.receives(&post, r),
        pre.drives(&driven, d),
        pre.closes(&closed),
    ensures
        pre.in_status() == pre.inner().in_status(),
        post.unsent() == pre.unsent(),
        post.serializer() == pre.serializer(),
        receives_framed(
            &pre.inner(),
            &pre.deserializer(),
            pre.unread(),
            &post.inner(),
            &post.deserializer(),
            post.unread(),
            r,
        ),
        driven.unread() == pre.unread(),
        driven.deserializer() == pre.deserializer(),
        driven.serializer() == pre.serializer(),
        closed.unread() == pre.unread(),
        closed.unsent() == pre.unsent(),
        pre.inner().closes(&closed.inner()),
{
}

/// A session that only receives is driven and closed as its underlying session is, and keeps its unread bytes.
pub proof fn receiver_keeps_unread_bytes<'a, S, F>(
    pre: FrameReceiver<S, F>,
    post: FrameReceiver<S, F>,
    r: Result<ReceiveOutcome<F::DeserializedFrame<'a>>, Error>,
    driven: FrameReceiver<S, F>,
    d: Result<DriveOutcome, Error>,
    closed: FrameReceiver<S, F>,
) where S: for<'b> Receive<ReceivePayload<'b> = &'b [u8]> + 'static, F: DeserializeFrame + 'static
    requires
        pre.receives(&post, r),
        pre.drives(&driven, d),
        pre.closes(&closed),
    ensures
        pre.in_status() == pre.inner().in_status(),
        receives_framed(
            &pre.inner(),
            &pre.deserializer(),
            pre.unread(),
            &post.inner(),
            &post.deserializer(),
            post.unread(),
            r,
        ),
        pre.inner().drives(&driven.inner(), d),
        driven.unread() == pre.unread() && driven.deserializer() == pre.deserializer(),
        pre.inner().closes(&closed.inner()),
        closed.unread() == pre.unread() && closed.deserializer() == pre.deserializer(),
{
}

/// A session that only publishes keeps its unsent bytes when it is closed.
pub proof fn closed_publisher_keeps_unsent_bytes<S, F>(pre: FramePublisher<S, F>, closed: FramePublisher<S, F>) where
    S: for<'a> Publish<PublishPayload<'a> = &'a [u8]> + 'static,
    F: SerializeFrame + 'static,

    requires
        pre.closes(&closed),
    ensures
        pre.in_status() == pre.inner().in_status(),
        pre.inner().closes(&closed.inner()),
        closed.unsent() == pre.unsent(),
{
}

/// A length that no `usize` holds is an error, and fewer bytes than the length has are waited for.
pub proof fn u64_length_that_is_too_large_is_an_error(
    data: Seq<u8>,
    eof: bool,
    frames: U64FrameDeserializer,
    post: U64FrameDeserializer,
    c: Result<bool, Error>,
)
    requires
        frames.checks(data, eof, &post, c),
    ensures
        data.len() < 8 ==> c == Ok::<bool, Error>(false),
        c is Err <==> data.len() >= 8 && u64_frame_len(data) > usize::MAX,
        c matches Err(e) ==> e.kind == ErrorKind::InvalidData && e.message@ == "frame to deserialize exceeds usize"@,
{
}

} // verus!
