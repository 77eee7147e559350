//! The two buffers of the `bytes` crate that the batched reads and writes
//! work on: `BytesMut`, which grows at its end, and `Bytes`, which is
//! consumed from its front.

use bytes::{Buf, BufMut, Bytes, BytesMut};
use vstd::prelude::*;

verus! {

/// `bytes::BytesMut`, a growable byte buffer.
#[verifier::external_type_specification]
#[verifier::external_body]
pub struct ExBytesMut(BytesMut);

/// `bytes::Bytes`, a byte buffer that is read from its front.
#[verifier::external_type_specification]
#[verifier::external_body]
pub struct ExBytes(Bytes);

/// The bytes that a `BytesMut` holds, from its first to its last.
pub uninterp spec fn filled(buf: BytesMut) -> Seq<u8>;

/// The bytes that a `Bytes` has yet to hand out, in order.
pub uninterp spec fn unread(buf: Bytes) -> Seq<u8>;

/// The step by which a full `BytesMut` grows.
pub const GROWTH: usize = 64;

/// Calls `BytesMut::len`, the number of bytes that the buffer holds.
#[verifier::external_body]
pub(crate) fn filled_len(buf: &BytesMut) -> (n: usize)
    ensures
        n == filled(*buf).len(),
{
    buf.len()
}

/// Calls `BufMut::has_remaining_mut` on a `BytesMut`. The source computes
/// it as `usize::MAX - len > 0`.
#[verifier::external_body]
pub(crate) fn has_room(buf: &BytesMut) -> (b: bool)
    ensures
        b == (filled(*buf).len() < usize::MAX),
{
    buf.has_remaining_mut()
}

/// Calls `BufMut::bytes_mut` on a `BytesMut` and reports the length of the
/// spare capacity that it returns. The source first reserves `GROWTH` more
/// bytes if the buffer is at its capacity, which panics where the new
/// capacity would pass `usize::MAX`; the bytes that the buffer holds stay
/// as they are. How much capacity there is depends on the allocator, so
/// only its bounds are stated.
#[verifier::external_body]
pub(crate) fn spare_len(buf: &mut BytesMut) -> (n: usize)
    requires
        filled(*old(buf)).len() + GROWTH <= usize::MAX,
    ensures
        filled(*final(buf)) == filled(*old(buf)),
        1 <= n,
        filled(*old(buf)).len() + n <= usize::MAX,
{
    buf.bytes_mut().len()
}

/// Calls `BufMut::put_slice` on a `BytesMut`, which appends `src` at the
/// end. The source reserves room for it first, which panics where the new
/// length would pass `usize::MAX`.
#[verifier::external_body]
pub(crate) fn put_slice(buf: &mut BytesMut, src: &[u8])
    requires
        filled(*old(buf)).len() + src@.len() <= usize::MAX,
    ensures
        filled(*final(buf)) == filled(*old(buf)) + src@,
{
    buf.put_slice(src)
}

/// Calls `Buf::has_remaining` on a `Bytes`: whether any byte is left.
#[verifier::external_body]
pub(crate) fn has_unread(buf: &Bytes) -> (b: bool)
    ensures
        b == (unread(*buf).len() > 0),
{
    buf.has_remaining()
}

/// Calls `Buf::bytes` on a `Bytes`, which returns all that is left as one
/// slice.
#[verifier::external_body]
pub(crate) fn unread_slice(buf: &Bytes) -> (s: &[u8])
    ensures
        s@ == unread(*buf),
{
    buf.bytes()
}

/// Calls `Buf::advance` on a `Bytes`, which drops the first `cnt` bytes.
/// The source panics where `cnt` is more than what is left.
#[verifier::external_body]
pub(crate) fn advance(buf: &mut Bytes, cnt: usize)
    requires
        cnt <= unread(*old(buf)).len(),
    ensures
        unread(*final(buf)) == unread(*old(buf)).skip(cnt as int),
{
    buf.advance(cnt)
}

} // verus!
