//! One flush.

use core::task::{Context, Poll};
use vstd::prelude::*;
use crate::write::AsyncWrite;

verus! {

/// The operation that flushes the sink once per call.
#[derive(Debug)]
#[must_use]
pub struct Flush<'a, A> {
    pub a: &'a mut A,
}

/// The operation that flushes `a`.
pub fn flush<'a, A: AsyncWrite>(a: &'a mut A) -> (op: Flush<'a, A>)
    ensures
        *op.a == *old(a),
        *final(op.a) == *final(a),
{
    Flush { a }
}

impl<'a, A: AsyncWrite> Flush<'a, A> {
    /// Exactly one `poll_flush` of the sink, whose answer is passed on as
    /// it is.
    pub fn poll(&mut self, cx: &mut Context<'_>) -> (r: Poll<Result<(), A::FlushError>>)
        ensures
            *final(final(self).a) == *final(old(self).a),
            (*old(self).a).flush_step(&*final(self).a, r),
    {
        self.a.poll_flush(cx)
    }
}

} // verus!
