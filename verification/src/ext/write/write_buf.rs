//! One write out of a consumable buffer.

use bytes::Bytes;
use core::task::{Context, Poll};
use vstd::prelude::*;
use crate::buf::unread;
use crate::task::{moved, nothing};
use crate::write::AsyncWrite;

verus! {

/// The operation that offers the sink what `buf` has left once per call,
/// and drops from `buf` what the sink took.
#[must_use]
pub struct WriteBuf<'a, W> {
    pub writer: &'a mut W,
    pub buf: &'a mut Bytes,
}

/// The operation that offers to `writer` what `buf` has left.
pub fn write_buf<'a, W: AsyncWrite>(writer: &'a mut W, buf: &'a mut Bytes) -> (op: WriteBuf<
    'a,
    W,
>)
    ensures
        *op.writer == *old(writer),
        *op.buf == *old(buf),
        *final(op.writer) == *final(writer),
        *final(op.buf) == *final(buf),
{
    WriteBuf { writer, buf }
}

impl<'a, W: AsyncWrite> WriteBuf<'a, W> {
    /// Exactly one `poll_write_buf` of the sink, whose answer is passed on
    /// as it is.
    pub fn poll(&mut self, cx: &mut Context<'_>) -> (r: Poll<Result<usize, W::WriteError>>)
        ensures
            *final(final(self).writer) == *final(old(self).writer),
            *final(final(self).buf) == *final(old(self).buf),
            moved(r) <= unread(*old(self).buf).len(),
            unread(*final(self).buf) == unread(*old(self).buf).skip(moved(r) as int),
            unread(*old(self).buf).len() == 0 ==> nothing(r) && *final(self).writer == *old(
                self,
            ).writer,
            unread(*old(self).buf).len() > 0 ==> (*old(self).writer).write_step(
                &*final(self).writer,
                unread(*old(self).buf),
                r,
            ),
    {
        self.writer.poll_write_buf(cx, self.buf)
    }
}

} // verus!
