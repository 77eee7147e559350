//! One write.

use core::task::{Context, Poll};
use vstd::prelude::*;
use crate::task::moved;
use crate::write::AsyncWrite;

verus! {

/// The operation that offers `buf` to the sink once per call.
#[derive(Debug)]
#[must_use]
pub struct Write<'a, W> {
    pub writer: &'a mut W,
    pub buf: &'a [u8],
}

/// The operation that offers `buf` to `writer`.
pub fn write<'a, W: AsyncWrite>(writer: &'a mut W, buf: &'a [u8]) -> (op: Write<'a, W>)
    ensures
        *op.writer == *old(writer),
        *final(op.writer) == *final(writer),
        op.buf@ == buf@,
{
    Write { writer, buf }
}

impl<'a, W: AsyncWrite> Write<'a, W> {
    /// Exactly one `poll_write` of the sink, whose answer is passed on as
    /// it is.
    pub fn poll(&mut self, cx: &mut Context<'_>) -> (r: Poll<Result<usize, W::WriteError>>)
        ensures
            *final(final(self).writer) == *final(old(self).writer),
            final(self).buf@ == old(self).buf@,
            moved(r) <= old(self).buf@.len(),
            (*old(self).writer).write_step(&*final(self).writer, old(self).buf@, r),
    {
        self.writer.poll_write(cx, self.buf)
    }
}

} // verus!
