//! Messages on a stream of bytes: each message is followed by one NUL byte.
//!
//! A `Connection` keeps what has been read from a stream and not yet handed
//! out. Reading from the stream and writing to it is left to the caller.

use bytes::{Buf, BytesMut};
use vstd::prelude::*;

verus! {

/// `bytes::BytesMut`, the buffer of a connection. What it holds is spoken of
/// through `contents`.
#[verifier::external_type_specification]
#[verifier::external_body]
pub struct ExBytesMut(bytes::BytesMut);

/// The bytes that a buffer holds, in order.
pub uninterp spec fn contents(buffer: BytesMut) -> Seq<u8>;

/// The number of bytes that a buffer has taken in since it was made, whether
/// or not it still holds them. What the buffer has allocated never covers
/// more than these.
pub uninterp spec fn taken_in(buffer: BytesMut) -> nat;

/// The most bytes that a buffer is let to take in. An allocation holds no more
/// than `isize::MAX` bytes, and a buffer that grows may ask for twice what it
/// has, which may be twice what it needs.
pub const LIMIT: usize = usize::MAX / 8;

/// `BytesMut::with_capacity` makes a buffer that holds nothing. It panics
/// where the capacity is more than an allocation can have, hence the bound.
#[verifier::external_body]
fn with_capacity(capacity: usize) -> (buffer: BytesMut)
    requires
        capacity <= LIMIT,
    ensures
        contents(buffer) == Seq::<u8>::empty(),
        taken_in(buffer) == 0,
{
    BytesMut::with_capacity(capacity)
}

/// `BytesMut::extend_from_slice` appends the bytes given and keeps what was
/// there. It panics where the buffer would have to grow beyond what an
/// allocation can have, hence the bound.
#[verifier::external_body]
fn extend_from_slice(buffer: &mut BytesMut, bytes: &[u8])
    requires
        taken_in(*old(buffer)) + bytes@.len() <= LIMIT,
    ensures
        contents(*final(buffer)) == contents(*old(buffer)) + bytes@,
        taken_in(*final(buffer)) == taken_in(*old(buffer)) + bytes@.len(),
{
    buffer.extend_from_slice(bytes)
}

/// `Buf::advance` of a `BytesMut` drops the first `cnt` bytes and keeps the
/// rest. It panics where the buffer holds fewer than `cnt`, hence the bound.
#[verifier::external_body]
fn advance(buffer: &mut BytesMut, cnt: usize)
    requires
        cnt <= contents(*old(buffer)).len(),
    ensures
        contents(*final(buffer)) == contents(*old(buffer)).skip(cnt as int),
        taken_in(*final(buffer)) == taken_in(*old(buffer)),
{
    buffer.advance(cnt)
}

/// The bytes of a `BytesMut` as a slice: all that it holds, in order.
#[verifier::external_body]
fn as_slice(buffer: &BytesMut) -> (bytes: &[u8])
    ensures
        bytes@ == contents(*buffer),
{
    &buffer[..]
}

/// What has been read from a stream and not yet handed out as a message.
pub struct Connection {
    buffer: BytesMut,
    taken: usize,
}

/// Why reading a message failed.
#[derive(Debug, PartialEq, Eq, Structural)]
pub enum ConnectionError {
    /// The stream ended in the middle of a message.
    Disconnect,
    /// The stream has brought more bytes than a buffer is let to take in.
    TooLong,
}

/// What a connection has learned from a read.
#[derive(Debug, PartialEq, Eq, Structural)]
pub enum Received {
    /// More bytes: look for a message again.
    More,
    /// The stream has ended where a message ended: there is no further message.
    Closed,
}

/// Whether no byte of `bytes` is NUL.
pub open spec fn no_nul(bytes: Seq<u8>) -> bool {
    forall|i: int| 0 <= i < bytes.len() ==> #[trigger] bytes[i] != 0
}

/// A message as it goes over the stream: its bytes, then one NUL.
pub open spec fn framed(message: Seq<u8>) -> Seq<u8> {
    message.push(0u8)
}

/// What a connection makes of a read that brought `bytes`, where `pending`
/// are the bytes it holds and `taken` is the number it has taken in so far:
/// the bytes are refused only where they would take the connection over
/// `LIMIT`, and the end of the stream is clean only where nothing is held.
pub open spec fn received_spec(pending: Seq<u8>, taken: nat, bytes: Seq<u8>) -> Result<
    Received,
    ConnectionError,
> {
    if bytes.len() == 0 {
        if pending.len() == 0 {
            Ok(Received::Closed)
        } else {
            Err(ConnectionError::Disconnect)
        }
    } else if taken + bytes.len() > LIMIT {
        Err(ConnectionError::TooLong)
    } else {
        Ok(Received::More)
    }
}

/// What a connection holds and how much it has taken in.
pub struct Intake {
    pub pending: Seq<u8>,
    pub taken: nat,
}

/// The intake after a read that brought `bytes`: bytes that are taken in
/// join the end of what is held, and nothing changes otherwise.
pub open spec fn intake_after(intake: Intake, bytes: Seq<u8>) -> Intake {
    if received_spec(intake.pending, intake.taken, bytes) == Ok::<Received, ConnectionError>(
        Received::More,
    ) {
        Intake { pending: intake.pending + bytes, taken: intake.taken + bytes.len() }
    } else {
        intake
    }
}

/// The intake after reads that brought `chunks`, one after the other.
pub open spec fn intake_after_all(intake: Intake, chunks: Seq<Seq<u8>>) -> Intake
    decreases chunks.len(),
{
    if chunks.len() == 0 {
        intake
    } else {
        intake_after(intake_after_all(intake, chunks.drop_last()), chunks.last())
    }
}

/// `chunks` one after the other, as one sequence of bytes.
pub open spec fn joined(chunks: Seq<Seq<u8>>) -> Seq<u8>
    decreases chunks.len(),
{
    if chunks.len() == 0 {
        Seq::empty()
    } else {
        joined(chunks.drop_last()) + chunks.last()
    }
}

impl Connection {
    /// This object is usable: it has counted every byte that its buffer took in.
    pub closed spec fn wf(&self) -> bool {
        taken_in(self.buffer) == self.taken <= LIMIT
    }

    /// The bytes that have been read and not yet handed out.
    pub closed spec fn pending(&self) -> Seq<u8> {
        contents(self.buffer)
    }

    /// The number of bytes that the connection has taken in since it was made,
    /// handed out or not. It never exceeds `LIMIT`.
    pub closed spec fn taken(&self) -> nat {
        self.taken as nat
    }

    /// A connection that has read nothing, with room for `page_size` bytes.
    pub fn new(page_size: usize) -> (connection: Connection)
        requires
            page_size <= LIMIT,
        ensures
            connection.wf(),
            connection.pending() == Seq::<u8>::empty(),
            connection.taken() == 0,
    {
        Connection { buffer: with_capacity(page_size), taken: 0 }
    }

    /// Hands out the first message among the bytes read, if a whole one is
    /// there: the bytes before the first NUL. The message and its NUL leave the
    /// buffer, what follows stays. Without a NUL nothing changes.
    pub fn parse_message(&mut self) -> (r: Option<Vec<u8>>)
        requires
            old(self).wf(),
        ensures
            final(self).wf(),
            final(self).taken() == old(self).taken(),
            match r {
                Some(message) => {
                    &&& no_nul(message@)
                    &&& old(self).pending() == framed(message@) + final(self).pending()
                },
                None => no_nul(old(self).pending()) && final(self).pending() == old(
                    self,
                ).pending(),
            },
    {
        let bytes = as_slice(&self.buffer);
        let mut end: usize = 0;
        while end < bytes.len() && bytes[end] != 0
            invariant
                end <= bytes@.len(),
                no_nul(bytes@.take(end as int)),
            decreases bytes@.len() - end,
        {
            assert(bytes@.take(end + 1) =~= bytes@.take(end as int).push(bytes@[end as int]));
            end += 1;
        }
        if end == bytes.len() {
            assert(bytes@.take(end as int) =~= bytes@);
            return None;
        }
        let mut message: Vec<u8> = Vec::new();
        let mut i: usize = 0;
        while i < end
            invariant
                i <= end < bytes@.len(),
                message@ == bytes@.take(i as int),
            decreases end - i,
        {
            message.push(bytes[i]);
            assert(bytes@.take(i + 1) =~= bytes@.take(i as int).push(bytes@[i as int]));
            i += 1;
        }
        assert(bytes@ =~= framed(bytes@.take(end as int)) + bytes@.skip(end + 1));
        advance(&mut self.buffer, end + 1);
        Some(message)
    }

    /// Takes what a read from the stream has brought. Bytes join those read
    /// before, as long as the connection has not taken in more than `LIMIT`
    /// with them. No bytes mean that the stream has ended: cleanly where
    /// nothing is left over, and in the middle of a message where something
    /// is.
    pub fn received(&mut self, bytes: &[u8]) -> (r: Result<Received, ConnectionError>)
        requires
            old(self).wf(),
        ensures
            final(self).wf(),
            r == received_spec(old(self).pending(), old(self).taken(), bytes@),
            final(self).pending() == intake_after(
                Intake { pending: old(self).pending(), taken: old(self).taken() },
                bytes@,
            ).pending,
            final(self).taken() == intake_after(
                Intake { pending: old(self).pending(), taken: old(self).taken() },
                bytes@,
            ).taken,
    {
        if bytes.len() == 0 {
            if as_slice(&self.buffer).len() == 0 {
                Ok(Received::Closed)
            } else {
                Err(ConnectionError::Disconnect)
            }
        } else {
            if bytes.len() > LIMIT - self.taken {
                return Err(ConnectionError::TooLong);
            }
            extend_from_slice(&mut self.buffer, bytes);
            self.taken = self.taken + bytes.len();
            Ok(Received::More)
        }
    }
}

/// A message as it is written to the stream: its bytes, then one NUL.
pub fn write_message(message: Vec<u8>) -> (bytes: Vec<u8>)
    ensures
        bytes@ == framed(message@),
{
    let mut bytes = message;
    bytes.push(0u8);
    bytes
}

/// What is written comes out as it went in: of the bytes of two messages
/// written one after the other, neither of which holds a NUL, the first
/// message is the only one that can be handed out first, and what stays behind
/// is the second as it was written.
pub proof fn lemma_frames_part(first: Seq<u8>, rest: Seq<u8>, message: Seq<u8>, left: Seq<u8>)
    requires
        no_nul(first),
        no_nul(message),
        framed(first) + rest == framed(message) + left,
    ensures
        message == first,
        left == rest,
{
    let a = framed(first) + rest;
    let b = framed(message) + left;
    assert(a.len() == first.len() + 1 + rest.len());
    assert(b.len() == message.len() + 1 + left.len());
    assert(a[first.len() as int] == 0);
    assert(b[message.len() as int] == 0);
    if message.len() < first.len() {
        assert(b[message.len() as int] == 0);
        assert(a[message.len() as int] == first[message.len() as int]);
    } else if first.len() < message.len() {
        assert(a[first.len() as int] == 0);
        assert(b[first.len() as int] == message[first.len() as int]);
    }
    assert(message =~= first) by {
        assert forall|i: int| 0 <= i < first.len() implies message[i] == first[i] by {
            assert(a[i] == first[i]);
            assert(b[i] == message[i]);
        }
    }
    assert(message.len() == first.len());
    assert(left.len() == rest.len());
    assert(left =~= rest) by {
        assert forall|i: int| 0 <= i < rest.len() implies left[i] == rest[i] by {
            assert(a[first.len() + 1 + i] == rest[i]);
            assert(b[message.len() + 1 + i] == left[i]);
        }
    }
}

/// However the bytes of a stream arrive, they join what is held in the order
/// in which they were written: after reads that brought `chunks`, none of
/// which took the connection over `LIMIT`, the connection holds what it held
/// before and then all the chunks, one after the other. A read that brings
/// nothing changes nothing.
pub proof fn lemma_reads_join(intake: Intake, chunks: Seq<Seq<u8>>)
    requires
        intake.taken + joined(chunks).len() <= LIMIT,
    ensures
        intake_after_all(intake, chunks).pending == intake.pending + joined(chunks),
        intake_after_all(intake, chunks).taken == intake.taken + joined(chunks).len(),
    decreases chunks.len(),
{
    if chunks.len() == 0 {
        assert(intake.pending + joined(chunks) =~= intake.pending);
    } else {
        let before = chunks.drop_last();
        let last = chunks.last();
        assert(joined(chunks).len() == joined(before).len() + last.len());
        lemma_reads_join(intake, before);
        let so_far = intake_after_all(intake, before);
        if last.len() == 0 {
            assert(joined(chunks) =~= joined(before));
        } else {
            assert(so_far.pending + last =~= intake.pending + joined(chunks));
        }
    }
}

/// Two messages written one after the other are read back in that order,
/// however their bytes arrive: once a connection that held nothing has taken
/// in the chunks of the two, the only message that can be handed out is the
/// first, the only one after it is the second, and then nothing is left.
pub proof fn lemma_messages_in_order(
    first: Seq<u8>,
    second: Seq<u8>,
    chunks: Seq<Seq<u8>>,
    message: Seq<u8>,
    left: Seq<u8>,
    next: Seq<u8>,
    end: Seq<u8>,
)
    requires
        no_nul(first),
        no_nul(second),
        joined(chunks) == framed(first) + framed(second),
        joined(chunks).len() <= LIMIT,
        no_nul(message),
        intake_after_all(Intake { pending: Seq::empty(), taken: 0 }, chunks).pending == framed(
            message,
        ) + left,
        no_nul(next),
        left == framed(next) + end,
    ensures
        message == first,
        next == second,
        end == Seq::<u8>::empty(),
{
    let start = Intake { pending: Seq::empty(), taken: 0 };
    lemma_reads_join(start, chunks);
    assert(start.pending + joined(chunks) =~= joined(chunks));
    lemma_frames_part(first, framed(second), message, left);
    assert(framed(second) + Seq::<u8>::empty() =~= framed(second));
    lemma_frames_part(second, Seq::<u8>::empty(), next, end);
}

} // verus!
