//! One close.

use core::task::{Context, Poll};
use vstd::prelude::*;
use crate::write::AsyncWrite;

verus! {

/// The operation that closes the sink once per call.
#[derive(Debug)]
#[must_use]
pub struct Close<'a, A> {
    pub a: &'a mut A,
}

/// The operation that closes `a`.
pub fn close<'a, A: AsyncWrite>(a: &'a mut A) -> (op: Close<'a, A>)
    ensures
        *op.a == *old(a),
        *final(op.a) == *final(a),
{
    Close { a }
}

impl<'a, A: AsyncWrite> Close<'a, A> {
    /// Exactly one `poll_close` of the sink, whose answer is passed on as
    /// it is.
    pub fn poll(&mut self, cx: &mut Context<'_>) -> (r: Poll<Result<(), A::CloseError>>)
        ensures
            *final(final(self).a) == *final(old(self).a),
            (*old(self).a).close_step(&*final(self).a, r),
    {
        self.a.poll_close(cx)
    }
}

} // verus!
