//! Filling a buffer completely.

use core::task::{Context, Poll};
use vstd::prelude::*;
use crate::read::AsyncRead;
use crate::record::{offered_rest, offered_room, productive, read_run, yielded, ReadStep};
use crate::task::{moved, nothing};

verus! {

/// Why a buffer could not be filled.
#[derive(Debug)]
pub enum ReadExactError<T> {
    /// The source ended before the buffer was full.
    Eof,
    /// The source failed.
    Read(T),
}

/// An error of the source becomes the `Read` error.
impl<T> From<T> for ReadExactError<T> {
    fn from(input: T) -> (e: Self) {
        ReadExactError::Read(input)
    }
}

impl<T> vstd::std_specs::convert::FromSpecImpl<T> for ReadExactError<T> {
    open spec fn obeys_from_spec() -> bool {
        true
    }

    open spec fn from_spec(input: T) -> Self {
        ReadExactError::Read(input)
    }
}

/// The operation that reads until `buf` is full. `pos` counts the bytes
/// that are in place.
#[derive(Debug)]
#[must_use]
pub struct ReadExact<'a, A> {
    pub reader: &'a mut A,
    pub buf: &'a mut [u8],
    pub pos: usize,
}

/// The operation that fills `buf` from `reader`, with nothing in place
/// yet.
pub fn read_exact<'a, A: AsyncRead>(reader: &'a mut A, buf: &'a mut [u8]) -> (op: ReadExact<'a, A>)
    ensures
        op.wf(),
        op.pos == 0,
        *op.reader == *old(reader),
        op.buf@ == old(buf)@,
        *final(op.reader) == *final(reader),
        final(op.buf)@ == final(buf)@,
{
    ReadExact { reader, buf, pos: 0 }
}

/// The polls `t` that `ReadExact` has made within one call of `poll`: the
/// source went from `a0` to `a1`, and the bytes it handed out stand in the
/// buffer from `pos0` up to `pos1`, behind what was in place before. Each
/// poll was offered the part of the buffer that was still unfilled, which
/// was never empty: a buffer with nothing left to fill is not polled for.
/// Where the source keeps the rest, the buffer beyond `pos1` is as it was.
pub open spec fn read_exact_progress<A: AsyncRead>(
    t: Seq<ReadStep<A>>,
    a0: A,
    a1: A,
    buf0: Seq<u8>,
    buf1: Seq<u8>,
    pos0: nat,
    pos1: nat,
) -> bool {
    &&& read_run(t, a0, a1)
    &&& offered_rest(t, (buf0.len() - pos0) as nat)
    &&& offered_room(t)
    &&& buf1.len() == buf0.len()
    &&& pos0 <= pos1 <= buf0.len()
    &&& buf1.take(pos0 as int) == buf0.take(pos0 as int)
    &&& buf1.subrange(pos0 as int, pos1 as int) == yielded(t)
    &&& A::keeps_rest() ==> buf1.skip(pos1 as int) == buf0.skip(pos1 as int)
}

/// What one call of `ReadExact::poll` does, given the polls `t` that it
/// made: it polls until the buffer is full or a poll hands out nothing, and
/// that last poll decides the answer.
pub open spec fn read_exact_polled<A: AsyncRead>(
    t: Seq<ReadStep<A>>,
    a0: A,
    a1: A,
    buf0: Seq<u8>,
    buf1: Seq<u8>,
    pos0: nat,
    pos1: nat,
    r: Poll<Result<usize, ReadExactError<A::Error>>>,
) -> bool {
    &&& read_exact_progress(t, a0, a1, buf0, buf1, pos0, pos1)
    &&& match r {
        Poll::Ready(Ok(n)) => {
            &&& n == buf0.len()
            &&& pos1 == buf0.len()
            &&& productive(t)
        },
        Poll::Ready(Err(ReadExactError::Eof)) => {
            &&& pos1 < buf0.len()
            &&& t.len() > 0
            &&& productive(t.drop_last())
            &&& nothing(t.last().result)
        },
        Poll::Ready(Err(ReadExactError::Read(e))) => {
            &&& t.len() > 0
            &&& productive(t.drop_last())
            &&& t.last().result == Poll::<Result<usize, A::Error>>::Ready(Err(e))
        },
        Poll::Pending => {
            &&& t.len() > 0
            &&& productive(t.drop_last())
            &&& t.last().result is Pending
        },
    }
}

impl<'a, A: AsyncRead> ReadExact<'a, A> {
    /// No more bytes are counted than the buffer holds.
    pub open spec fn wf(&self) -> bool {
        self.pos <= self.buf@.len()
    }

    /// `self` is what a call of `poll` that made the polls `t` and answered
    /// `r` leaves of `before`.
    pub open spec fn polled(
        &self,
        before: &Self,
        t: Seq<ReadStep<A>>,
        r: Poll<Result<usize, ReadExactError<A::Error>>>,
    ) -> bool {
        read_exact_polled(
            t,
            *before.reader,
            *self.reader,
            before.buf@,
            self.buf@,
            before.pos as nat,
            self.pos as nat,
            r,
        )
    }

    /// Reads into the unfilled part of the buffer, again and again, until the
    /// buffer is full, or the source has nothing ready, fails, or ends. A full
    /// buffer is answered with its length.
    pub fn poll(&mut self, cx: &mut Context<'_>) -> (r: Poll<Result<usize, ReadExactError<A::Error>>>)
        requires
            old(self).wf(),
        ensures
            final(self).wf(),
            *final(final(self).reader) == *final(old(self).reader),
            final(final(self).buf)@ == final(old(self).buf)@,
            exists|t: Seq<ReadStep<A>>| #[trigger] final(self).polled(old(self), t, r),
    {
        let ghost mut t: Seq<ReadStep<A>> = Seq::empty();
        assert(self.buf@.subrange(self.pos as int, self.pos as int) =~= yielded(t));
        loop
            invariant
                self.wf(),
                *final(self.reader) == *final(old(self).reader),
                final(self.buf)@ == final(old(self).buf)@,
                read_exact_progress(
                    t,
                    *old(self).reader,
                    *self.reader,
                    old(self).buf@,
                    self.buf@,
                    old(self).pos as nat,
                    self.pos as nat,
                ),
                productive(t),
            decreases self.buf@.len() - self.pos,
        {
            if self.pos < self.buf.len() {
                let ghost before = *self.reader;
                let ghost filled = self.buf@;
                let ghost at = self.pos as int;
                let (head, rest) = self.buf.split_at_mut(self.pos);
                let r = self.reader.poll_read(cx, rest);
                proof {
                    assert(self.buf@.take(at) =~= filled.take(at));
                    if A::keeps_rest() {
                        assert(self.buf@.skip(at + moved(r) as int) =~= rest@.skip(
                            moved(r) as int,
                        ));
                        assert(filled.skip(at + moved(r) as int) =~= filled.skip(at).skip(
                            moved(r) as int,
                        ));
                    }
                    assert(self.buf@.subrange(at, at + moved(r) as int) =~= rest@.take(
                        moved(r) as int,
                    ));
                    let step = ReadStep {
                        from: before,
                        to: *self.reader,
                        cap: (filled.len() - at) as nat,
                        result: r,
                        data: rest@.take(moved(r) as int),
                    };
                    lemma_read_exact_extend(
                        t,
                        step,
                        *old(self).reader,
                        old(self).buf@,
                        filled,
                        self.buf@,
                        old(self).pos as nat,
                        at as nat,
                    );
                    assert(t.push(step).drop_last() =~= t);
                    t = t.push(step);
                }
                match r {
                    Poll::Pending => {
                        let out = Poll::Pending;
                        assert(self.polled(old(self), t, out));
                        return out;
                    },
                    Poll::Ready(Err(e)) => {
                        let out = Poll::Ready(Err(ReadExactError::Read(e)));
                        assert(self.polled(old(self), t, out));
                        return out;
                    },
                    Poll::Ready(Ok(n)) => {
                        self.pos += n;
                        if n == 0 {
                            let out = Poll::Ready(Err(ReadExactError::Eof));
                            assert(self.polled(old(self), t, out));
                            return out;
                        }
                    },
                }
            }
            if self.pos >= self.buf.len() {
                let out = Poll::Ready(Ok(self.pos));
                assert(self.polled(old(self), t, out));
                return out;
            }
        }
    }
}

/// Adding one more poll to the record keeps it in step with the buffer.
proof fn lemma_read_exact_extend<A: AsyncRead>(
    t: Seq<ReadStep<A>>,
    step: ReadStep<A>,
    a0: A,
    buf0: Seq<u8>,
    filled: Seq<u8>,
    after: Seq<u8>,
    pos0: nat,
    pos: nat,
)
    requires
        read_exact_progress(t, a0, step.from, buf0, filled, pos0, pos),
        step.valid(),
        pos < buf0.len(),
        step.cap == buf0.len() - pos,
        after.len() == filled.len(),
        after.take(pos as int) == filled.take(pos as int),
        after.subrange(pos as int, pos + step.data.len() as int) == step.data,
        A::keeps_rest() ==> after.skip(pos + step.data.len() as int) == filled.skip(
            pos + step.data.len() as int,
        ),
    ensures
        read_exact_progress(
            t.push(step),
            a0,
            step.to,
            buf0,
            after,
            pos0,
            pos + step.data.len(),
        ),
{
    let t2 = t.push(step);
    let end = pos + step.data.len() as int;
    assert(t2.drop_last() =~= t);
    assert(after.take(pos0 as int) =~= filled.take(pos as int).take(pos0 as int));
    assert(filled.take(pos0 as int) =~= filled.take(pos as int).take(pos0 as int));
    assert(after.subrange(pos0 as int, pos as int) =~= after.take(pos as int).subrange(
        pos0 as int,
        pos as int,
    ));
    assert(filled.subrange(pos0 as int, pos as int) =~= filled.take(pos as int).subrange(
        pos0 as int,
        pos as int,
    ));
    assert(after.subrange(pos0 as int, end) =~= after.subrange(pos0 as int, pos as int)
        + after.subrange(pos as int, end));
    if A::keeps_rest() {
        assert(filled.skip(end) =~= filled.skip(pos as int).skip(end - pos));
        assert(buf0.skip(end) =~= buf0.skip(pos as int).skip(end - pos));
    }
}

} // verus!
