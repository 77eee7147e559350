//! The writable byte sink.

use core::task::{Context, Poll};
use bytes::Bytes;
use vstd::prelude::*;
use crate::buf::{advance, has_unread, unread, unread_slice};
use crate::task::{moved, nothing};

verus! {

/// A sink of bytes that is polled for progress.
///
/// `poll_write` offers `buf` and learns how many of its leading bytes the
/// sink took. `poll_flush` drains what the sink buffers internally, and
/// `poll_close` shuts it down in an orderly way. Each of the three has an
/// error type of its own.
pub trait AsyncWrite {
    type WriteError;

    type FlushError;

    type CloseError;

    /// The transition relation of a write: offered `offered` in state
    /// `self`, the sink may answer `r` and go on in state `next`. A sink
    /// that does not say how it behaves allows every step.
    open spec fn write_step(
        &self,
        next: &Self,
        offered: Seq<u8>,
        r: Poll<Result<usize, Self::WriteError>>,
    ) -> bool {
        true
    }

    /// The transition relation of a flush.
    open spec fn flush_step(&self, next: &Self, r: Poll<Result<(), Self::FlushError>>) -> bool {
        true
    }

    /// The transition relation of a close.
    open spec fn close_step(&self, next: &Self, r: Poll<Result<(), Self::CloseError>>) -> bool {
        true
    }

    /// Attempts to write `buf`. No more bytes are reported than `buf`
    /// holds, and the step is one that the sink allows.
    fn poll_write(&mut self, cx: &mut Context<'_>, buf: &[u8]) -> (r: Poll<
        Result<usize, Self::WriteError>,
    >)
        ensures
            moved(r) <= buf@.len(),
            (*old(self)).write_step(&*final(self), buf@, r),
    ;

    /// Attempts to drain what the sink buffers.
    fn poll_flush(&mut self, cx: &mut Context<'_>) -> (r: Poll<Result<(), Self::FlushError>>)
        ensures
            (*old(self)).flush_step(&*final(self), r),
    ;

    /// Attempts to shut the sink down.
    fn poll_close(&mut self, cx: &mut Context<'_>) -> (r: Poll<Result<(), Self::CloseError>>)
        ensures
            (*old(self)).close_step(&*final(self), r),
    ;

    /// Offers the sink all that `buf` has left and drops from `buf` what
    /// the sink took. An empty buffer is answered with zero, and the sink
    /// is not polled. `buf` changes only when the write has succeeded.
    fn poll_write_buf(&mut self, cx: &mut Context<'_>, buf: &mut Bytes) -> (r: Poll<
        Result<usize, Self::WriteError>,
    >) where Self: Sized
        ensures
            moved(r) <= unread(*old(buf)).len(),
            unread(*final(buf)) == unread(*old(buf)).skip(moved(r) as int),
            unread(*old(buf)).len() == 0 ==> nothing(r) && *final(self) == *old(self),
            unread(*old(buf)).len() > 0 ==> (*old(self)).write_step(
                &*final(self),
                unread(*old(buf)),
                r,
            ),
    {
        if !has_unread(buf) {
            return Poll::Ready(Ok(0));
        }
        let r = self.poll_write(cx, unread_slice(buf));
        match r {
            Poll::Ready(Ok(n)) => {
                advance(buf, n);
                Poll::Ready(Ok(n))
            },
            Poll::Ready(Err(e)) => Poll::Ready(Err(e)),
            Poll::Pending => Poll::Pending,
        }
    }
}

/// A vector takes every byte it is offered, at its end, and never fails.
impl AsyncWrite for Vec<u8> {
    type WriteError = void::Void;

    type FlushError = void::Void;

    type CloseError = void::Void;

    open spec fn write_step(
        &self,
        next: &Self,
        offered: Seq<u8>,
        r: Poll<Result<usize, void::Void>>,
    ) -> bool {
        &&& r matches Poll::Ready(Ok(n))
        &&& n == offered.len()
        &&& next@ == self@ + offered
    }

    open spec fn flush_step(&self, next: &Self, r: Poll<Result<(), void::Void>>) -> bool {
        &&& r matches Poll::Ready(Ok(_))
        &&& next@ == self@
    }

    open spec fn close_step(&self, next: &Self, r: Poll<Result<(), void::Void>>) -> bool {
        &&& r matches Poll::Ready(Ok(_))
        &&& next@ == self@
    }

    fn poll_write(&mut self, cx: &mut Context<'_>, buf: &[u8]) -> (r: Poll<
        Result<usize, void::Void>,
    >) {
        self.extend_from_slice(buf);
        assert(self@ =~= old(self)@ + buf@);
        Poll::Ready(Ok(buf.len()))
    }

    fn poll_flush(&mut self, cx: &mut Context<'_>) -> (r: Poll<Result<(), void::Void>>) {
        Poll::Ready(Ok(()))
    }

    fn poll_close(&mut self, cx: &mut Context<'_>) -> (r: Poll<Result<(), void::Void>>) {
        Poll::Ready(Ok(()))
    }
}

/// An exclusive reference to a sink is a sink: every poll goes to the
/// sink behind it.
impl<T: AsyncWrite> AsyncWrite for &mut T {
    type WriteError = T::WriteError;

    type FlushError = T::FlushError;

    type CloseError = T::CloseError;

    open spec fn write_step(
        &self,
        next: &Self,
        offered: Seq<u8>,
        r: Poll<Result<usize, T::WriteError>>,
    ) -> bool {
        (**self).write_step(&**next, offered, r)
    }

    open spec fn flush_step(&self, next: &Self, r: Poll<Result<(), T::FlushError>>) -> bool {
        (**self).flush_step(&**next, r)
    }

    open spec fn close_step(&self, next: &Self, r: Poll<Result<(), T::CloseError>>) -> bool {
        (**self).close_step(&**next, r)
    }

    fn poll_write(&mut self, cx: &mut Context<'_>, buf: &[u8]) -> (r: Poll<
        Result<usize, T::WriteError>,
    >) {
        (**self).poll_write(cx, buf)
    }

    fn poll_flush(&mut self, cx: &mut Context<'_>) -> (r: Poll<Result<(), T::FlushError>>) {
        (**self).poll_flush(cx)
    }

    fn poll_close(&mut self, cx: &mut Context<'_>) -> (r: Poll<Result<(), T::CloseError>>) {
        (**self).poll_close(cx)
    }
}

/// A boxed sink is a sink: every poll goes to the sink in the box.
impl<T: AsyncWrite> AsyncWrite for Box<T> {
    type WriteError = T::WriteError;

    type FlushError = T::FlushError;

    type CloseError = T::CloseError;

    open spec fn write_step(
        &self,
        next: &Self,
        offered: Seq<u8>,
        r: Poll<Result<usize, T::WriteError>>,
    ) -> bool {
        (**self).write_step(&**next, offered, r)
    }

    open spec fn flush_step(&self, next: &Self, r: Poll<Result<(), T::FlushError>>) -> bool {
        (**self).flush_step(&**next, r)
    }

    open spec fn close_step(&self, next: &Self, r: Poll<Result<(), T::CloseError>>) -> bool {
        (**self).close_step(&**next, r)
    }

    fn poll_write(&mut self, cx: &mut Context<'_>, buf: &[u8]) -> (r: Poll<
        Result<usize, T::WriteError>,
    >) {
        (**self).poll_write(cx, buf)
    }

    fn poll_flush(&mut self, cx: &mut Context<'_>) -> (r: Poll<Result<(), T::FlushError>>) {
        (**self).poll_flush(cx)
    }

    fn poll_close(&mut self, cx: &mut Context<'_>) -> (r: Poll<Result<(), T::CloseError>>) {
        (**self).poll_close(cx)
    }
}

} // verus!
