//! One read.

use core::task::{Context, Poll};
use vstd::prelude::*;
use crate::read::AsyncRead;
use crate::task::{moved, prefix};

verus! {

/// The operation that polls the source once per call, with `buf`.
#[derive(Debug)]
#[must_use]
pub struct Read<'a, R> {
    pub reader: &'a mut R,
    pub buf: &'a mut [u8],
}

/// The operation that reads from `reader` into `buf`.
pub fn read<'a, R: AsyncRead>(reader: &'a mut R, buf: &'a mut [u8]) -> (op: Read<'a, R>)
    ensures
        *op.reader == *old(reader),
        op.buf@ == old(buf)@,
        *final(op.reader) == *final(reader),
        final(op.buf)@ == final(buf)@,
{
    Read { reader, buf }
}

impl<'a, R: AsyncRead> Read<'a, R> {
    /// Exactly one `poll_read` of the source, whose answer is passed on as
    /// it is. Where the source keeps the rest, the buffer is as it was
    /// beyond the bytes read.
    pub fn poll(&mut self, cx: &mut Context<'_>) -> (r: Poll<Result<usize, R::Error>>)
        ensures
            *final(final(self).reader) == *final(old(self).reader),
            final(final(self).buf)@ == final(old(self).buf)@,
            final(self).buf@.len() == old(self).buf@.len(),
            moved(r) <= old(self).buf@.len(),
            (*old(self).reader).read_step(
                &*final(self).reader,
                old(self).buf@.len(),
                r,
                prefix(final(self).buf@, r),
            ),
            R::keeps_rest() ==> final(self).buf@.skip(moved(r) as int) == old(self).buf@.skip(
                moved(r) as int,
            ),
    {
        self.reader.poll_read(cx, self.buf)
    }
}

} // verus!
