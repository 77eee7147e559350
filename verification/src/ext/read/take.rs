//! A source capped at a number of bytes.

use core::task::{Context, Poll};
use vstd::prelude::*;
use crate::read::AsyncRead;
use crate::task::{moved, nothing};

verus! {

/// A source that yields at most `limit` more bytes of the source inside it
/// and then reports the end of the stream.
#[derive(Debug)]
#[must_use]
pub struct Take<R> {
    inner: R,
    limit_: u64,
}

/// `inner`, capped at `limit` bytes.
pub fn take<R: AsyncRead>(inner: R, limit: u64) -> (t: Take<R>)
    ensures
        t.inner() == inner,
        t.budget() == limit,
{
    Take { inner, limit_: limit }
}

/// The number of bytes that `Take` asks of its source when it has `budget`
/// bytes left and is offered a buffer of `cap` bytes.
pub open spec fn clipped(cap: nat, budget: u64) -> nat {
    if cap < budget {
        cap
    } else {
        budget as nat
    }
}

impl<R: AsyncRead> Take<R> {
    /// The source inside.
    pub closed spec fn inner(&self) -> R {
        self.inner
    }

    /// The number of bytes that may still be yielded.
    pub closed spec fn budget(&self) -> u64 {
        self.limit_
    }

    /// The number of bytes that may still be yielded.
    pub fn limit(&self) -> (n: u64)
        ensures
            n == self.budget(),
    {
        self.limit_
    }

    /// Sets the number of bytes that may still be yielded, whatever has been
    /// yielded so far.
    pub fn set_limit(&mut self, limit: u64)
        ensures
            final(self).budget() == limit,
            final(self).inner() == old(self).inner(),
    {
        self.limit_ = limit
    }

    /// The source inside.
    pub fn get_ref(&self) -> (r: &R)
        ensures
            *r == self.inner(),
    {
        &self.inner
    }

    /// The source inside, for use in place. What is read from it directly is
    /// not taken off the budget.
    pub fn get_mut(&mut self) -> (r: &mut R)
        ensures
            *r == old(self).inner(),
            final(self).inner() == *final(r),
            final(self).budget() == old(self).budget(),
    {
        &mut self.inner
    }

    /// The source inside, for polling it directly. Streams are addressed by
    /// plain exclusive references throughout, so this is `get_mut` under
    /// the name that callers holding a stream in place look for.
    pub fn get_pin_mut(&mut self) -> (r: &mut R)
        ensures
            *r == old(self).inner(),
            final(self).inner() == *final(r),
            final(self).budget() == old(self).budget(),
    {
        &mut self.inner
    }

    /// Gives the source inside back.
    pub fn into_inner(self) -> (r: R)
        ensures
            r == self.inner(),
    {
        self.inner
    }
}

impl<R: AsyncRead> AsyncRead for Take<R> {
    type Error = R::Error;

    /// With nothing left of the budget the answer is the end of the
    /// stream, and the source inside is not touched. Otherwise the source
    /// inside is polled with the buffer clipped to the budget, and what it
    /// hands out is taken off the budget.
    open spec fn read_step(
        &self,
        next: &Self,
        cap: nat,
        r: Poll<Result<usize, R::Error>>,
        data: Seq<u8>,
    ) -> bool {
        if self.budget() == 0 {
            &&& nothing(r)
            &&& data == Seq::<u8>::empty()
            &&& *next == *self
        } else {
            &&& moved(r) <= clipped(cap, self.budget())
            &&& self.inner().read_step(&next.inner(), clipped(cap, self.budget()), r, data)
            &&& next.budget() == self.budget() - moved(r)
        }
    }

    open spec fn keeps_rest() -> bool {
        R::keeps_rest()
    }

    /// Whatever the source inside does, the buffer stays as it was beyond
    /// the part that the source was offered; with the budget spent, all of
    /// it stays as it was.
    fn poll_read(&mut self, cx: &mut Context<'_>, buf: &mut [u8]) -> (r: Poll<
        Result<usize, R::Error>,
    >)
        ensures
            moved(r) <= old(self).budget(),
            final(self).budget() == old(self).budget() - moved(r),
            old(self).budget() == 0 ==> final(buf)@ == old(buf)@,
            final(buf)@.skip(clipped(old(buf)@.len(), old(self).budget()) as int) == old(
                buf,
            )@.skip(clipped(old(buf)@.len(), old(self).budget()) as int),
    {
        assert(Self::keeps_rest() == R::keeps_rest());
        if self.limit_ == 0 {
            assert(buf@.take(0) =~= Seq::<u8>::empty());
            return Poll::Ready(Ok(0));
        }
        let len: usize = buf.len();
        let max: usize = if (len as u64) < self.limit_ {
            len
        } else {
            self.limit_ as usize
        };
        let (head, _) = buf.split_at_mut(max);
        let r = self.inner.poll_read(cx, head);
        proof {
            let n = moved(r) as int;
            assert(buf@.take(n) =~= head@.take(n));
            if R::keeps_rest() {
                assert forall|i: int| n <= i < buf@.len() implies buf@[i] == old(buf)@[i] by {
                    if i < max {
                        assert(head@.skip(n)[i - n] == old(buf)@.take(max as int).skip(n)[i - n]);
                    }
                }
            }
        }
        match r {
            Poll::Ready(Ok(n)) => {
                self.limit_ -= n as u64;
                Poll::Ready(Ok(n))
            },
            Poll::Ready(Err(e)) => Poll::Ready(Err(e)),
            Poll::Pending => Poll::Pending,
        }
    }
}

} // verus!
