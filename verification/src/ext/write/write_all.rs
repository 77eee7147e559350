//! Writing a buffer completely.

use core::task::{Context, Poll};
use vstd::prelude::*;
use vstd::slice::slice_subrange;
use crate::task::{moved, nothing};
use crate::write::AsyncWrite;
use crate::record::{
    accepted, all_taken, offered_some, offered_unwritten, write_run, WriteStep,
};

verus! {

/// Why a buffer could not be written out.
#[derive(Debug)]
pub enum WriteAllError<T> {
    /// The sink took nothing although bytes were left.
    WriteZero,
    /// The sink failed.
    Write(T),
}

/// An error of the sink becomes the `Write` error.
impl<T> From<T> for WriteAllError<T> {
    fn from(input: T) -> (e: Self) {
        WriteAllError::Write(input)
    }
}

impl<T> vstd::std_specs::convert::FromSpecImpl<T> for WriteAllError<T> {
    open spec fn obeys_from_spec() -> bool {
        true
    }

    open spec fn from_spec(input: T) -> Self {
        WriteAllError::Write(input)
    }
}

/// The operation that writes until nothing of `buf` is left. `buf` is the
/// part that has not been placed yet.
#[derive(Debug)]
#[must_use]
pub struct WriteAll<'a, W> {
    pub writer: &'a mut W,
    pub buf: &'a [u8],
}

/// The operation that writes all of `buf` to `writer`.
pub fn write_all<'a, W: AsyncWrite>(writer: &'a mut W, buf: &'a [u8]) -> (op: WriteAll<'a, W>)
    ensures
        *op.writer == *old(writer),
        *final(op.writer) == *final(writer),
        op.buf@ == buf@,
{
    WriteAll { writer, buf }
}

/// The writes that `WriteAll` has made so far within one call of `poll`:
/// the sink went from `w0` to `w1` and took the front of `src0`, of which
/// `src1` is left. Each write offered all that was left, which was never
/// nothing: with nothing left, the sink is not written to.
pub open spec fn write_all_progress<W: AsyncWrite>(
    t: Seq<WriteStep<W>>,
    w0: W,
    w1: W,
    src0: Seq<u8>,
    src1: Seq<u8>,
) -> bool {
    &&& write_run(t, w0, w1)
    &&& offered_unwritten(t, src0)
    &&& offered_some(t)
    &&& accepted(t).len() <= src0.len()
    &&& accepted(t) == src0.take(accepted(t).len() as int)
    &&& src1 == src0.skip(accepted(t).len() as int)
}

/// What one call of `WriteAll::poll` does, given the writes `t` that it
/// made: it writes until nothing is left or the sink takes nothing, and
/// that last write decides the answer.
pub open spec fn write_all_polled<W: AsyncWrite>(
    t: Seq<WriteStep<W>>,
    w0: W,
    w1: W,
    src0: Seq<u8>,
    src1: Seq<u8>,
    r: Poll<Result<(), WriteAllError<W::WriteError>>>,
) -> bool {
    &&& write_all_progress(t, w0, w1, src0, src1)
    &&& match r {
        Poll::Ready(Ok(_)) => {
            &&& src1.len() == 0
            &&& all_taken(t)
        },
        Poll::Ready(Err(WriteAllError::WriteZero)) => {
            &&& src1.len() > 0
            &&& t.len() > 0
            &&& all_taken(t.drop_last())
            &&& nothing(t.last().result)
        },
        Poll::Ready(Err(WriteAllError::Write(e))) => {
            &&& t.len() > 0
            &&& all_taken(t.drop_last())
            &&& t.last().result == Poll::<Result<usize, W::WriteError>>::Ready(Err(e))
        },
        Poll::Pending => {
            &&& t.len() > 0
            &&& all_taken(t.drop_last())
            &&& t.last().result is Pending
        },
    }
}

impl<'a, W: AsyncWrite> WriteAll<'a, W> {
    /// `self` is what a call of `poll` that made the writes `t` and
    /// answered `r` leaves of `before`.
    pub open spec fn polled(
        &self,
        before: &Self,
        t: Seq<WriteStep<W>>,
        r: Poll<Result<(), WriteAllError<W::WriteError>>>,
    ) -> bool {
        write_all_polled(t, *before.writer, *self.writer, before.buf@, self.buf@, r)
    }

    /// Offers the sink what is left, again and again, until nothing is left,
    /// the sink has nothing ready, fails, or takes nothing. What the sink took
    /// is dropped from the front of `buf`.
    pub fn poll(&mut self, cx: &mut Context<'_>) -> (r: Poll<Result<(), WriteAllError<W::WriteError>>>)
        ensures
            *final(final(self).writer) == *final(old(self).writer),
            exists|t: Seq<WriteStep<W>>| #[trigger] final(self).polled(old(self), t, r),
    {
        let ghost mut t: Seq<WriteStep<W>> = Seq::empty();
        assert(self.buf@ =~= old(self).buf@.skip(0));
        assert(accepted(t) =~= old(self).buf@.take(0));
        while !self.buf.is_empty()
            invariant
                *final(self.writer) == *final(old(self).writer),
                write_all_progress(t, *old(self).writer, *self.writer, old(self).buf@, self.buf@),
                all_taken(t),
            decreases self.buf@.len(),
        {
            let ghost before = *self.writer;
            let ghost left = self.buf@;
            let r = self.writer.poll_write(cx, self.buf);
            proof {
                let step = WriteStep { from: before, to: *self.writer, offered: left, result: r };
                lemma_write_all_extend(t, step, *old(self).writer, old(self).buf@);
                assert(t.push(step).drop_last() =~= t);
                t = t.push(step);
            }
            match r {
                Poll::Pending => {
                    let out = Poll::Pending;
                    assert(self.polled(old(self), t, out));
                    return out;
                },
                Poll::Ready(Err(e)) => {
                    let out = Poll::Ready(Err(WriteAllError::Write(e)));
                    assert(self.polled(old(self), t, out));
                    return out;
                },
                Poll::Ready(Ok(n)) => {
                    self.buf = slice_subrange(self.buf, n, self.buf.len());
                    assert(self.buf@ =~= old(self).buf@.skip(accepted(t).len() as int));
                    if n == 0 {
                        let out = Poll::Ready(Err(WriteAllError::WriteZero));
                        assert(self.polled(old(self), t, out));
                        return out;
                    }
                },
            }
        }
        let out = Poll::Ready(Ok(()));
        assert(self.polled(old(self), t, out));
        out
    }
}

/// Adding one more write to the record keeps it in step with what is left.
proof fn lemma_write_all_extend<W: AsyncWrite>(
    t: Seq<WriteStep<W>>,
    step: WriteStep<W>,
    w0: W,
    src0: Seq<u8>,
)
    requires
        write_all_progress(t, w0, step.from, src0, step.offered),
        step.valid(),
        step.offered.len() > 0,
    ensures
        write_all_progress(
            t.push(step),
            w0,
            step.to,
            src0,
            src0.skip(accepted(t.push(step)).len() as int),
        ),
        accepted(t.push(step)).len() == accepted(t).len() + moved(step.result),
{
    let t2 = t.push(step);
    let k = accepted(t).len() as int;
    let n = moved(step.result) as int;
    assert(t2.drop_last() =~= t);
    assert(accepted(t2) =~= src0.take(k + n));
}

} // verus!
