//! Reading a source to its end.

use core::task::{Context, Poll};
use vstd::prelude::*;
use vstd::slice::slice_subrange;
use crate::read::AsyncRead;
use crate::record::{offered_each, productive, read_run, yielded, ReadStep};
use crate::task::{moved, nothing};

verus! {

/// The number of bytes that each poll of the source is offered.
pub const CHUNK: usize = 32;

/// The operation that appends to `buf` all that the source yields until it
/// ends. `start_len` is the length that `buf` had when the operation was
/// made; the answer counts from there.
#[derive(Debug)]
#[must_use]
pub struct ReadToEnd<'a, R> {
    pub reader: &'a mut R,
    pub buf: &'a mut Vec<u8>,
    pub start_len: usize,
}

/// The operation that reads `reader` to its end and appends to `buf`.
pub fn read_to_end<'a, R: AsyncRead>(reader: &'a mut R, buf: &'a mut Vec<u8>) -> (op: ReadToEnd<
    'a,
    R,
>)
    ensures
        op.wf(),
        op.start_len == old(buf)@.len(),
        *op.reader == *old(reader),
        op.buf@ == old(buf)@,
        *final(op.reader) == *final(reader),
        final(op.buf)@ == final(buf)@,
{
    let start_len: usize = buf.len();
    ReadToEnd { reader, buf, start_len }
}

/// What one call of `read_to_end_internal` does, given the polls `t` that
/// it made: each poll is offered `CHUNK` bytes, what it hands out is
/// appended to the buffer, and the first poll that hands out nothing
/// decides the answer. The end of the source answers with the number of
/// bytes that the buffer holds beyond `start_len`.
pub open spec fn read_to_end_polled<R: AsyncRead>(
    t: Seq<ReadStep<R>>,
    a0: R,
    a1: R,
    buf0: Seq<u8>,
    buf1: Seq<u8>,
    start_len: nat,
    r: Poll<Result<usize, R::Error>>,
) -> bool {
    &&& read_run(t, a0, a1)
    &&& offered_each(t, CHUNK as nat)
    &&& buf1 == buf0 + yielded(t)
    &&& t.len() > 0
    &&& productive(t.drop_last())
    &&& match r {
        Poll::Ready(Ok(n)) => {
            &&& nothing(t.last().result)
            &&& n == buf1.len() - start_len
        },
        Poll::Ready(Err(e)) => t.last().result == Poll::<Result<usize, R::Error>>::Ready(Err(e)),
        Poll::Pending => t.last().result is Pending,
    }
}

/// Polls `rd` until it ends, fails or has nothing ready, and appends what
/// it yields to `buf`. At every moment `buf` holds only bytes that the
/// source has handed out: a poll reads into a scratch buffer first.
pub fn read_to_end_internal<R: AsyncRead>(
    rd: &mut R,
    cx: &mut Context<'_>,
    buf: &mut Vec<u8>,
    start_len: usize,
) -> (r: Poll<Result<usize, R::Error>>)
    requires
        start_len <= old(buf)@.len(),
    ensures
        exists|t: Seq<ReadStep<R>>| #[trigger]
            read_to_end_polled(t, *old(rd), *final(rd), old(buf)@, final(buf)@, start_len as nat, r),
{
    let mut scratch: Vec<u8> = vec![0u8; CHUNK];
    let ghost mut t: Seq<ReadStep<R>> = Seq::empty();
    loop
        invariant
            scratch@.len() == CHUNK,
            start_len <= old(buf)@.len(),
            read_run(t, *old(rd), *rd),
            offered_each(t, CHUNK as nat),
            productive(t),
            buf@ == old(buf)@ + yielded(t),
        decreases usize::MAX - buf@.len(),
    {
        let ghost before = *rd;
        let r = rd.poll_read(cx, scratch.as_mut_slice());
        proof {
            let step = ReadStep {
                from: before,
                to: *rd,
                cap: CHUNK as nat,
                result: r,
                data: scratch@.take(moved(r) as int),
            };
            assert(t.push(step).drop_last() =~= t);
            t = t.push(step);
        }
        match r {
            Poll::Pending => {
                let out = Poll::Pending;
                assert(read_to_end_polled(
                    t,
                    *old(rd),
                    *rd,
                    old(buf)@,
                    buf@,
                    start_len as nat,
                    out,
                ));
                return out;
            },
            Poll::Ready(Err(e)) => {
                let out = Poll::Ready(Err(e));
                assert(read_to_end_polled(
                    t,
                    *old(rd),
                    *rd,
                    old(buf)@,
                    buf@,
                    start_len as nat,
                    out,
                ));
                return out;
            },
            Poll::Ready(Ok(n)) => {
                if n == 0 {
                    let out = Poll::Ready(Ok(buf.len() - start_len));
                    assert(read_to_end_polled(
                        t,
                        *old(rd),
                        *rd,
                        old(buf)@,
                        buf@,
                        start_len as nat,
                        out,
                    ));
                    return out;
                }
                buf.extend_from_slice(slice_subrange(scratch.as_slice(), 0, n));
                assert(buf.len() <= usize::MAX);
            },
        }
    }
}

impl<'a, R: AsyncRead> ReadToEnd<'a, R> {
    /// The buffer is at least as long as it was when the operation was
    /// made.
    pub open spec fn wf(&self) -> bool {
        self.start_len <= self.buf@.len()
    }

    /// `self` is what a call of `poll` that made the polls `t` and answered
    /// `r` leaves of `before`.
    pub open spec fn polled(
        &self,
        before: &Self,
        t: Seq<ReadStep<R>>,
        r: Poll<Result<usize, R::Error>>,
    ) -> bool {
        &&& self.start_len == before.start_len
        &&& read_to_end_polled(
            t,
            *before.reader,
            *self.reader,
            before.buf@,
            self.buf@,
            before.start_len as nat,
            r,
        )
    }

    /// One call of `read_to_end_internal` on the source and the buffer.
    pub fn poll(&mut self, cx: &mut Context<'_>) -> (r: Poll<Result<usize, R::Error>>)
        requires
            old(self).wf(),
        ensures
            final(self).wf(),
            *final(final(self).reader) == *final(old(self).reader),
            final(final(self).buf)@ == final(old(self).buf)@,
            exists|t: Seq<ReadStep<R>>| #[trigger] final(self).polled(old(self), t, r),
    {
        let r = read_to_end_internal(self.reader, cx, self.buf, self.start_len);
        proof {
            let t = choose|t: Seq<ReadStep<R>>| #[trigger]
                read_to_end_polled(
                    t,
                    *old(self).reader,
                    *self.reader,
                    old(self).buf@,
                    self.buf@,
                    self.start_len as nat,
                    r,
                );
            assert(self.polled(old(self), t, r));
        }
        r
    }
}

} // verus!
