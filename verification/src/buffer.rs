//! Internal data structures
use std::io::Write;

use circbuf::{CircBuf, CircBufError};
use vstd::prelude::*;
use vstd::arithmetic::power2::pow2;
use vstd::slice::slice_subrange;

use crate::error::{Error, ErrorKind};

verus! {

/// The circular byte buffer of the `circbuf` crate.
#[verifier::external_type_specification]
#[verifier::external_body]
pub struct ExCircBuf(CircBuf);

/// The errors of the `circbuf` crate.
#[verifier::external_type_specification]
#[verifier::external_body]
pub struct ExCircBufError(CircBufError);

/// The bytes that were written to a [`CircBuf`] and not yet read, oldest first.
pub uninterp spec fn circ_bytes(buf: CircBuf) -> Seq<u8>;

/// The most bytes that a [`CircBuf`] holds at a time: one less than the length of its storage.
pub uninterp spec fn circ_cap(buf: CircBuf) -> int;

/// Where in the storage of a [`CircBuf`] the next byte is read.
pub uninterp spec fn circ_position(buf: CircBuf) -> int;

/// `n` is the least power of two that is at least `cap`.
pub open spec fn is_next_power_of_two(n: int, cap: nat) -> bool {
    exists|e: nat| #[trigger] pow2(e) == n && n >= cap && (e == 0 || pow2((e - 1) as nat) < cap)
}

/// [`CircBuf::with_capacity`] allocates a storage whose length is `cap` rounded up to a power of two,
/// or fails when that power of two overflows a `usize`. The first byte is read at its start. A power of two that a `usize` holds and that is
/// larger than the largest allocation makes it panic, so that `cap` is left out.
#[verifier::external_body]
fn circ_with_capacity(cap: usize) -> (r: Result<CircBuf, CircBufError>)
    requires
        cap <= isize::MAX / 2 + 1 || cap > usize::MAX / 2 + 1,
    ensures
        r is Err <==> cap > usize::MAX / 2 + 1,
        r matches Ok(buf) ==> circ_bytes(buf) == Seq::<u8>::empty() && is_next_power_of_two(
            circ_cap(buf) + 1,
            cap as nat,
        ) && 0 <= circ_cap(buf) < usize::MAX && circ_position(buf) == 0,
{
    CircBuf::with_capacity(cap)
}

/// [`CircBuf::cap`] is one less than the length of the storage.
#[verifier::external_body]
fn circ_capacity(buf: &CircBuf) -> (r: usize)
    requires
        circ_cap(*buf) >= 0,
    ensures
        r == circ_cap(*buf),
{
    buf.cap()
}

/// [`CircBuf::avail`] is the number of bytes that can still be written.
#[verifier::external_body]
fn circ_avail(buf: &CircBuf) -> (r: usize)
    requires
        circ_cap(*buf) >= 0,
    ensures
        r == circ_cap(*buf) - circ_bytes(*buf).len(),
{
    buf.avail()
}

/// [`CircBuf::is_empty`] says whether there is nothing to read.
#[verifier::external_body]
fn circ_is_empty(buf: &CircBuf) -> (r: bool)
    ensures
        r == (circ_bytes(*buf).len() == 0),
{
    buf.is_empty()
}

/// Writing all of `data` to a [`CircBuf`] that has the space for it succeeds and appends `data` to what
/// there is to read, which starts at the same position.
#[verifier::external_body]
fn circ_write_all(buf: &mut CircBuf, data: &[u8]) -> (r: bool)
    requires
        circ_cap(*old(buf)) >= 0,
        data@.len() <= circ_cap(*old(buf)) - circ_bytes(*old(buf)).len(),
    ensures
        r,
        circ_cap(*final(buf)) == circ_cap(*old(buf)),
        circ_bytes(*final(buf)) == circ_bytes(*old(buf)) + data@,
        circ_position(*final(buf)) == circ_position(*old(buf)),
{
    buf.write_all(data).is_ok()
}

/// How many of `unread` bytes are read together when the storage ends `to_end` bytes behind the first.
pub open spec fn run_length(unread: nat, to_end: int) -> int {
    if unread < to_end {
        unread as int
    } else {
        to_end
    }
}

/// [`CircBuf::get_bytes`] gives what there is to read as two slices, the bytes up to the end of the storage and
/// those from its start.
#[verifier::external_body]
fn circ_get_bytes(buf: &CircBuf) -> (r: (&[u8], &[u8]))
    requires
        circ_cap(*buf) >= 0,
    ensures
        r.0@ + r.1@ == circ_bytes(*buf),
        r.0@.len() == run_length(circ_bytes(*buf).len(), circ_cap(*buf) + 1 - circ_position(*buf)),
{
    let [first, second] = buf.get_bytes();
    (first, second)
}

/// [`CircBuf::advance_read`] drops the first `num` bytes there are to read, moving the position round the storage, or
/// fails and drops nothing when there are fewer.
#[verifier::external_body]
fn circ_advance_read(buf: &mut CircBuf, num: usize) -> (r: Result<(), CircBufError>)
    requires
        circ_cap(*old(buf)) >= 0,
    ensures
        r is Err <==> num > circ_bytes(*old(buf)).len(),
        circ_cap(*final(buf)) == circ_cap(*old(buf)),
        circ_bytes(*final(buf)) == if r is Err {
            circ_bytes(*old(buf))
        } else {
            circ_bytes(*old(buf)).skip(num as int)
        },
        circ_position(*final(buf)) == if r is Err {
            circ_position(*old(buf))
        } else {
            (circ_position(*old(buf)) + num) % (circ_cap(*old(buf)) + 1)
        },
{
    buf.advance_read(num)
}

/// The bytes of all slices, one slice after the other.
pub open spec fn joined(data: Seq<&[u8]>) -> Seq<u8>
    decreases data.len(),
{
    if data.len() == 0 {
        Seq::empty()
    } else {
        joined(data.drop_last()) + data.last()@
    }
}

/// The bytes of the first slices are a prefix of the bytes of all slices.
proof fn lemma_joined_take(data: Seq<&[u8]>, n: int)
    requires
        0 <= n <= data.len(),
    ensures
        joined(data.take(n)).is_prefix_of(joined(data)),
    decreases data.len(),
{
    if n < data.len() {
        assert(data.drop_last().take(n) =~= data.take(n));
        lemma_joined_take(data.drop_last(), n);
    } else {
        assert(data.take(n) =~= data);
    }
}

/// A circular buffer of a fixed capacity, which grows for one write at a time that exceeds the capacity.
pub struct GrowableCircleBuf {
    circbuf: CircBuf,
    one_time_buffer: Vec<u8>,
    one_time_offset: usize,
}

impl GrowableCircleBuf {
    /// The invariant that every operation keeps.
    pub closed spec fn wf(&self) -> bool {
        &&& 0 <= circ_cap(self.circbuf) < usize::MAX
        &&& circ_bytes(self.circbuf).len() <= circ_cap(self.circbuf)
        &&& 0 <= circ_position(self.circbuf) <= circ_cap(self.circbuf)
        &&& if self.one_time_buffer@.len() == 0 {
            self.one_time_offset == 0
        } else {
            self.one_time_offset < self.one_time_buffer@.len()
        }
    }

    /// The most bytes that the circular part holds.
    pub closed spec fn capacity(&self) -> nat {
        circ_cap(self.circbuf) as nat
    }

    /// The unread bytes of a write that exceeded the capacity.
    pub closed spec fn oversized(&self) -> Seq<u8> {
        self.one_time_buffer@.skip(self.one_time_offset as int)
    }

    /// The unread bytes of the circular part.
    pub closed spec fn ring(&self) -> Seq<u8> {
        circ_bytes(self.circbuf)
    }

    /// Where in the storage of the circular part, which is one byte longer than the capacity, the next byte is read.
    pub closed spec fn position(&self) -> nat {
        circ_position(self.circbuf) as nat
    }

    /// All unread bytes, in the order in which they are read.
    pub open spec fn pending(&self) -> Seq<u8> {
        self.oversized() + self.ring()
    }

    /// Whether a write of `len` bytes is taken: one that exceeds the capacity is taken when there is nothing
    /// unread, any other one when the circular part has the space for it.
    pub open spec fn accepts(&self, len: nat) -> bool {
        if len > self.capacity() {
            self.pending().len() == 0
        } else {
            len <= self.capacity() - self.ring().len()
        }
    }

    /// The bytes that are read together next: all of an oversized write, or those of the circular part up to the end of
    /// its storage.
    pub open spec fn next_run(&self) -> Seq<u8> {
        if self.oversized().len() > 0 {
            self.oversized()
        } else {
            self.ring().take(run_length(self.ring().len(), self.capacity() + 1 - self.position()))
        }
    }

    /// Whether `post` is this buffer with `bytes` written to it.
    pub open spec fn writes(&self, bytes: Seq<u8>, post: &Self) -> bool {
        &&& post.capacity() == self.capacity()
        &&& post.position() == self.position()
        &&& if bytes.len() > self.capacity() {
            post.oversized() =~= bytes && post.ring() =~= Seq::<u8>::empty()
        } else {
            post.oversized() =~= self.oversized() && post.ring() =~= self.ring() + bytes
        }
        &&& post.pending() =~= self.pending() + bytes
    }

    /// Whether `post` is this buffer without the first `n` unread bytes.
    pub open spec fn advances(&self, n: nat, post: &Self) -> bool {
        &&& post.capacity() == self.capacity()
        &&& if self.oversized().len() > 0 {
            &&& post.oversized() =~= self.oversized().skip(n as int)
            &&& post.ring() =~= self.ring()
            &&& post.position() == self.position()
        } else {
            &&& post.oversized() =~= self.oversized()
            &&& post.ring() =~= self.ring().skip(n as int)
            &&& post.position() == (self.position() + n) % (self.capacity() + 1)
        }
    }

    /// Create an empty buffer. Its capacity is one less than the given one rounded up to a power of two.
    ///
    /// Fails when that power of two overflows a `usize`.
    pub fn new(capacity: usize) -> (r: Result<Self, Error>)
        requires
            capacity <= isize::MAX / 2 + 1 || capacity > usize::MAX / 2 + 1,
        ensures
            match r {
                Ok(buf) => {
                    &&& capacity <= usize::MAX / 2 + 1
                    &&& buf.wf()
                    &&& buf.oversized() == Seq::<u8>::empty()
                    &&& buf.ring() == Seq::<u8>::empty()
                    &&& buf.position() == 0
                    &&& is_next_power_of_two(buf.capacity() as int + 1, capacity as nat)
                },
                Err(e) => {
                    &&& capacity > usize::MAX / 2 + 1
                    &&& e.kind == ErrorKind::Other
                    &&& e.message@ == "Value would overflow usize"@
                },
            },
    {
        match circ_with_capacity(capacity) {
            Ok(circbuf) => Ok(Self { circbuf, one_time_buffer: Vec::new(), one_time_offset: 0 }),
            Err(_) => Err(Error::new(ErrorKind::Other, "Value would overflow usize")),
        }
    }

    /// return true if unread data size is 0
    pub fn is_empty(&self) -> (r: bool)
        requires
            self.wf(),
        ensures
            r == (self.pending().len() == 0),
    {
        circ_is_empty(&self.circbuf) && self.one_time_buffer.is_empty()
    }

    /// return if data was written.
    /// data larger than the capacity will only write when the buffer is empty.
    pub fn try_write(&mut self, data: &Vec<&[u8]>) -> (r: Result<bool, Error>)
        requires
            old(self).wf(),
            joined(data@).len() <= usize::MAX,
        ensures
            final(self).wf(),
            final(self).capacity() == old(self).capacity(),
            r == Ok::<bool, Error>(old(self).accepts(joined(data@).len())),
            if old(self).accepts(joined(data@).len()) {
                old(self).writes(joined(data@), final(self))
            } else {
                *final(self) == *old(self)
            },
    {
        let mut total_data_len: usize = 0;
        let mut i: usize = 0;
        while i < data.len()
            invariant
                i <= data@.len(),
                joined(data@).len() <= usize::MAX,
                total_data_len == joined(data@.take(i as int)).len(),
            decreases data@.len() - i,
        {
            proof {
                assert(data@.take(i + 1).drop_last() =~= data@.take(i as int));
                lemma_joined_take(data@, i + 1);
            }
            total_data_len = total_data_len + data[i].len();
            i = i + 1;
        }
        assert(data@.take(i as int) =~= data@);
        let cap: usize = circ_capacity(&self.circbuf);
        if total_data_len > cap {
            // data will never fit in circle buf, try to use one-time buffer
            if !self.is_empty() {
                // can only write to one-time buffer when circbuf is drained
                return Ok(false);
            }
            // populate one-time buffer
            self.one_time_offset = 0;
            let mut i: usize = 0;
            while i < data.len()
                invariant
                    i <= data@.len(),
                    self.one_time_offset == 0,
                    self.circbuf == old(self).circbuf,
                    self.one_time_buffer@ == joined(data@.take(i as int)),
                decreases data@.len() - i,
            {
                proof {
                    assert(data@.take(i + 1).drop_last() =~= data@.take(i as int));
                }
                self.one_time_buffer.extend_from_slice(data[i]);
                i = i + 1;
            }
            assert(data@.take(i as int) =~= data@);
            assert(self.oversized() =~= joined(data@));
            return Ok(true);
        }
        if total_data_len > circ_avail(&self.circbuf) {
            // data will not fit in available space
            return Ok(false);
        }
        // write to cir
        let mut i: usize = 0;
        while i < data.len()
            invariant
                i <= data@.len(),
                self.one_time_buffer == old(self).one_time_buffer,
                self.one_time_offset == old(self).one_time_offset,
                circ_cap(self.circbuf) == circ_cap(old(self).circbuf),
                0 <= circ_cap(self.circbuf) < usize::MAX,
                circ_bytes(self.circbuf) == circ_bytes(old(self).circbuf) + joined(data@.take(i as int)),
                circ_position(self.circbuf) == circ_position(old(self).circbuf),
                circ_bytes(old(self).circbuf).len() + joined(data@).len() <= circ_cap(self.circbuf),
            decreases data@.len() - i,
        {
            proof {
                assert(data@.take(i + 1).drop_last() =~= data@.take(i as int));
                lemma_joined_take(data@, i + 1);
            }
            circ_write_all(&mut self.circbuf, data[i]);
            i = i + 1;
        }
        assert(data@.take(i as int) =~= data@);
        Ok(true)
    }

    /// peek at available bytes
    ///
    /// All unread bytes of an oversized write are given at once. Of the circular part the bytes up to the end
    /// of its storage are given.
    pub fn peek_read<'a>(&'a self) -> (r: &'a [u8])
        requires
            self.wf(),
        ensures
            r@ == self.next_run(),
            r@.is_prefix_of(self.pending()),
            r@.len() == 0 ==> self.pending().len() == 0,
    {
        if self.one_time_buffer.is_empty() {
            let avail = circ_get_bytes(&self.circbuf);
            if avail.0.len() == 0 {
                avail.1
            } else {
                avail.0
            }
        } else {
            slice_subrange(self.one_time_buffer.as_slice(), self.one_time_offset, self.one_time_buffer.len())
        }
    }

    /// advance bytes that were able to be consumed from read
    ///
    /// Bytes of an oversized write and bytes of the circular part are not dropped by the same call.
    pub fn advance_read(&mut self, size: usize) -> (r: Result<(), Error>)
        requires
            old(self).wf(),
        ensures
            final(self).wf(),
            if old(self).oversized().len() > 0 {
                if size <= old(self).oversized().len() {
                    r is Ok && old(self).advances(size as nat, final(self))
                } else {
                    &&& crate::error::fails(r, ErrorKind::InvalidData, "over-read one-time buffer"@)
                    &&& old(self).advances(0, final(self))
                }
            } else if size <= old(self).ring().len() {
                r is Ok && old(self).advances(size as nat, final(self))
            } else {
                &&& crate::error::fails(
                    r,
                    ErrorKind::Other,
                    "Doesn't have enough data to advance read cursor"@,
                )
                &&& old(self).advances(0, final(self))
            },
            r is Ok ==> final(self).pending() == old(self).pending().skip(size as int),
    {
        proof {
            lemma_position_in_storage(self.position() as int, 0, self.capacity() as int + 1);
            lemma_position_in_storage(self.position() as int, size as int, self.capacity() as int + 1);
        }
        if self.one_time_buffer.is_empty() {
            match circ_advance_read(&mut self.circbuf, size) {
                Ok(_) => Ok(()),
                Err(_) => Err(
                    Error::new(ErrorKind::Other, "Doesn't have enough data to advance read cursor"),
                ),
            }
        } else {
            let unread: usize = self.one_time_buffer.len() - self.one_time_offset;
            if size == unread {
                self.one_time_offset = 0;
                self.one_time_buffer = Vec::new();
                Ok(())
            } else if size < unread {
                self.one_time_offset = self.one_time_offset + size;
                Ok(())
            } else {
                Err(Error::new(ErrorKind::InvalidData, "over-read one-time buffer"))
            }
        }
    }
}

/// A position that moves round a storage stays in it, and stays the same when it does not move.
proof fn lemma_position_in_storage(position: int, n: int, len: int)
    requires
        0 <= position < len,
        0 <= n,
    ensures
        0 <= (position + n) % len < len,
        n == 0 ==> (position + n) % len == position,
{
    vstd::arithmetic::div_mod::lemma_mod_bound(position + n, len);
    vstd::arithmetic::div_mod::lemma_small_mod(position as nat, len as nat);
}

/// The bytes that are read together next are the first of the unread ones, and there are some when any are unread.
pub proof fn next_run_is_first_unread(buf: GrowableCircleBuf)
    requires
        buf.wf(),
    ensures
        buf.next_run().is_prefix_of(buf.pending()),
        buf.next_run().len() == 0 ==> buf.pending().len() == 0,
        buf.oversized().len() > 0 ==> buf.next_run() == buf.oversized(),
        buf.oversized().len() == 0 ==> buf.next_run().is_prefix_of(buf.ring()),
{
    position_is_in_storage(buf);
    run_is_first_unread(buf);
}

/// The next byte is read in the storage, which is one byte longer than the capacity.
pub proof fn position_is_in_storage(buf: GrowableCircleBuf)
    requires
        buf.wf(),
    ensures
        buf.position() <= buf.capacity(),
        buf.ring().len() <= buf.capacity(),
{
}

/// The bytes that are read together next are the first of the unread ones wherever in the storage the next byte is read.
pub proof fn run_is_first_unread(buf: GrowableCircleBuf)
    requires
        buf.position() <= buf.capacity(),
    ensures
        buf.next_run().is_prefix_of(buf.pending()),
        buf.next_run().len() == 0 ==> buf.pending().len() == 0,
        buf.oversized().len() > 0 ==> buf.next_run() == buf.oversized(),
        buf.oversized().len() == 0 ==> buf.next_run().is_prefix_of(buf.ring()),
{
}

/// What is written to a buffer from which nothing was read is read at once.
pub proof fn first_write_is_read_at_once(buf: GrowableCircleBuf, bytes: Seq<u8>, post: GrowableCircleBuf)
    requires
        buf.wf(),
        buf.pending().len() == 0,
        buf.position() == 0,
        buf.writes(bytes, &post),
    ensures
        post.next_run() == bytes,
{
    if bytes.len() <= buf.capacity() {
        assert(buf.oversized().len() == 0 && buf.ring().len() == 0);
        assert(post.next_run() =~= bytes);
    }
}

/// A buffer with nothing unread takes a write of any length.
pub proof fn empty_buffer_accepts_any_length(buf: GrowableCircleBuf, len: nat)
    requires
        buf.pending().len() == 0,
    ensures
        buf.accepts(len),
{
}

/// Reading never makes a buffer refuse a write that it would have taken.
pub proof fn reading_keeps_acceptance(buf: GrowableCircleBuf, n: nat, post: GrowableCircleBuf, len: nat)
    requires
        buf.accepts(len),
        buf.advances(n, &post),
        n <= buf.pending().len(),
        buf.oversized().len() > 0 ==> n <= buf.oversized().len(),
    ensures
        post.accepts(len),
{
}

/// What is written goes behind all unread bytes, and nothing else changes: the capacity, and where the next byte is read.
pub proof fn written_bytes_are_last(buf: GrowableCircleBuf, bytes: Seq<u8>, post: GrowableCircleBuf)
    requires
        buf.writes(bytes, &post),
    ensures
        post.pending() == buf.pending() + bytes,
        post.capacity() == buf.capacity(),
        post.position() == buf.position(),
{
}

/// What is read are the first of the unread bytes, and the others stay in their order.
pub proof fn read_bytes_are_first(buf: GrowableCircleBuf, n: nat, post: GrowableCircleBuf)
    requires
        buf.advances(n, &post),
        n <= buf.next_run().len(),
        buf.position() <= buf.capacity(),
    ensures
        buf.pending() == buf.next_run().take(n as int) + post.pending(),
        post.capacity() == buf.capacity(),
{
    run_is_first_unread(buf);
    assert(buf.pending() =~= buf.next_run().take(n as int) + post.pending());
}

/// The unread bytes are those of an oversized write followed by those of the circular part.
pub proof fn oversized_bytes_are_first(buf: GrowableCircleBuf, i: int)
    ensures
        buf.pending().len() == buf.oversized().len() + buf.ring().len(),
        0 <= i < buf.oversized().len() ==> buf.pending()[i] == buf.oversized()[i],
        0 <= i < buf.ring().len() ==> buf.pending()[buf.oversized().len() + i] == buf.ring()[i],
{
}

/// A write that fits in the capacity is taken if and only if it fits behind the unread bytes of the circular part. One that
/// does not is taken if and only if there is nothing unread.
pub proof fn write_is_taken_when_it_fits(buf: GrowableCircleBuf, len: nat)
    ensures
        len <= buf.capacity() ==> (buf.accepts(len) <==> buf.ring().len() + len <= buf.capacity()),
        len > buf.capacity() ==> (buf.accepts(len) <==> buf.pending().len() == 0),
        !buf.accepts(len) ==> buf.pending().len() > 0 || buf.capacity() < buf.ring().len() + len,
{
}

/// The bytes of another slice go behind those of the others, and no slice has no bytes.
pub proof fn joined_slices_are_in_order(data: Seq<&[u8]>, slice: &[u8])
    ensures
        joined(Seq::empty()) == Seq::<u8>::empty(),
        joined(data.push(slice)) == joined(data) + slice@,
{
    assert(data.push(slice).drop_last() =~= data);
}

/// A number rounded up to a power of two is a power of two that is no less than the number and less than twice it.
pub proof fn next_power_of_two_is_close(n: int, cap: nat)
    requires
        is_next_power_of_two(n, cap),
    ensures
        n >= cap,
        n == 1 || n < 2 * cap,
        exists|e: nat| #[trigger] pow2(e) == n,
{
    let e = choose|e: nat| #[trigger] pow2(e) == n && n >= cap && (e == 0 || pow2((e - 1) as nat) < cap);
    if e > 0 {
        vstd::arithmetic::power2::lemma_pow2_unfold(e);
    } else {
        vstd::arithmetic::power2::lemma2_to64();
    }
}

/// A run of bytes ends with the unread bytes or with the storage, whichever comes first.
pub proof fn run_ends_with_storage(unread: nat, to_end: int)
    ensures
        run_length(unread, to_end) <= unread,
        run_length(unread, to_end) <= to_end,
        run_length(unread, to_end) == unread || run_length(unread, to_end) == to_end,
{
}

/// The bytes that are read together next go as far as they can: to the end of an oversized write, or to the end of the
/// storage or of the unread bytes of the circular part, whichever comes first.
pub proof fn run_goes_as_far_as_it_can(buf: GrowableCircleBuf)
    requires
        buf.position() <= buf.capacity(),
    ensures
        buf.oversized().len() > 0 ==> buf.next_run().len() == buf.oversized().len(),
        buf.oversized().len() == 0 && buf.position() + buf.ring().len() <= buf.capacity() + 1 ==> buf.next_run()
            == buf.ring(),
        buf.oversized().len() == 0 && buf.position() + buf.ring().len() > buf.capacity() + 1 ==> buf.position()
            + buf.next_run().len() == buf.capacity() + 1,
{
    if buf.oversized().len() == 0 && buf.position() + buf.ring().len() <= buf.capacity() + 1 {
        assert(buf.next_run() =~= buf.ring());
    }
}

/// Reading bytes of the circular part moves the position by as many round the storage, and reading bytes of an oversized
/// write does not move it.
pub proof fn reading_moves_position(buf: GrowableCircleBuf, n: nat, post: GrowableCircleBuf)
    requires
        buf.advances(n, &post),
        n <= buf.next_run().len(),
        buf.position() <= buf.capacity(),
    ensures
        buf.oversized().len() > 0 ==> post.position() == buf.position() && post.ring() == buf.ring(),
        buf.oversized().len() == 0 && buf.position() + n <= buf.capacity() ==> post.position() == buf.position() + n,
        buf.oversized().len() == 0 && buf.position() + n == buf.capacity() + 1 ==> post.position() == 0,
{
    let len = buf.capacity() as int + 1;
    if buf.position() + n <= buf.capacity() {
        vstd::arithmetic::div_mod::lemma_small_mod((buf.position() + n) as nat, len as nat);
    } else if buf.position() + n == len {
        vstd::arithmetic::div_mod::lemma_mod_self_0(len);
    }
}

} // verus!
