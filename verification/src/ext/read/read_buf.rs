//! One read into a growable buffer.

use bytes::BytesMut;
use core::task::{Context, Poll};
use vstd::prelude::*;
use crate::buf::filled;
use crate::read::{read_buf_step, AsyncRead};

verus! {

/// The operation that polls the source once per call and appends what it
/// yields to `buf`.
#[must_use]
pub struct ReadBuf<'a, R> {
    pub reader: &'a mut R,
    pub buf: &'a mut BytesMut,
}

/// The operation that reads from `reader` and appends to `buf`.
pub fn read_buf<'a, R: AsyncRead>(reader: &'a mut R, buf: &'a mut BytesMut) -> (op: ReadBuf<
    'a,
    R,
>)
    ensures
        *op.reader == *old(reader),
        *op.buf == *old(buf),
        *final(op.reader) == *final(reader),
        *final(op.buf) == *final(buf),
{
    ReadBuf { reader, buf }
}

impl<'a, R: AsyncRead> ReadBuf<'a, R> {
    /// Exactly one `poll_read_buf` of the source, whose answer is passed on
    /// as it is.
    pub fn poll(&mut self, cx: &mut Context<'_>) -> (r: Poll<Result<usize, R::Error>>)
        ensures
            *final(final(self).reader) == *final(old(self).reader),
            *final(final(self).buf) == *final(old(self).buf),
            read_buf_step(
                *old(self).reader,
                *final(self).reader,
                filled(*old(self).buf),
                filled(*final(self).buf),
                r,
            ),
    {
        self.reader.poll_read_buf(cx, self.buf)
    }
}

} // verus!
