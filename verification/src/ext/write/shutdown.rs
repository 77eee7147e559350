//! One shutdown.

use core::task::{Context, Poll};
use vstd::prelude::*;
use crate::write::AsyncWrite;

verus! {

/// The operation that shuts the sink down once per call. Shutting down is
/// closing under its other name.
#[derive(Debug)]
#[must_use]
pub struct Shutdown<'a, A> {
    pub a: &'a mut A,
}

/// The operation that shuts `a` down.
pub fn shutdown<'a, A: AsyncWrite>(a: &'a mut A) -> (op: Shutdown<'a, A>)
    ensures
        *op.a == *old(a),
        *final(op.a) == *final(a),
{
    Shutdown { a }
}

impl<'a, A: AsyncWrite> Shutdown<'a, A> {
    /// Exactly one `poll_close` of the sink, whose answer is passed on as
    /// it is.
    pub fn poll(&mut self, cx: &mut Context<'_>) -> (r: Poll<Result<(), A::CloseError>>)
        ensures
            *final(final(self).a) == *final(old(self).a),
            (*old(self).a).close_step(&*final(self).a, r),
    {
        self.a.poll_close(cx)
    }
}

} // verus!
