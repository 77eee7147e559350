//! Relaying a source to a sink.

use core::task::{Context, Poll};
use vstd::prelude::*;
use vstd::slice::slice_subrange;
use crate::read::AsyncRead;
use crate::record::{
    accepted, all_taken, offered_each, offered_some, productive, productive_to_end, read_run,
    write_run, yielded, FlushStep, ReadStep, WriteStep,
};
use crate::task::{moved, nothing, wake_by_ref, waker_of};
use crate::write::AsyncWrite;

verus! {

/// The size of the relay buffer.
pub const RELAY: usize = 2048;

/// The operation that moves all bytes of a source into a sink.
///
/// `buf[pos..cap]` holds the bytes that were read and not yet written,
/// `read_done` says that the source has ended, and `amt` counts the bytes
/// that the sink took.
#[must_use]
pub struct Copy<'a, R, W> {
    pub reader: &'a mut R,
    pub read_done: bool,
    pub writer: &'a mut W,
    pub pos: usize,
    pub cap: usize,
    pub amt: u64,
    pub buf: Vec<u8>,
}

/// Why a copy stopped.
#[derive(Debug)]
pub enum CopyError<R: AsyncRead, W: AsyncWrite> {
    /// The source failed.
    Read(R::Error),
    /// The sink failed to write.
    Write(W::WriteError),
    /// The sink failed to flush.
    Flush(W::FlushError),
    /// The sink took nothing although bytes were left.
    WriteZero,
}

/// What a copy does next.
#[derive(Debug, PartialEq, Eq, Structural)]
pub enum Turn {
    /// Refill the relay buffer from the source.
    Read,
    /// Offer the sink what the relay buffer holds.
    Write,
    /// Flush the sink: all is written and the source has ended.
    Flush,
}

/// One thing that a copy asked of its streams before it flushed: a read
/// of the source or a write to the sink.
pub enum CopyStep<R: AsyncRead, W: AsyncWrite> {
    Read(ReadStep<R>),
    Write(WriteStep<W>),
}

/// All that one call of `Copy::poll` asked of the two streams: its reads
/// and writes in the order in which they were made, and the flush after
/// them, if it came to that.
pub struct CopyLog<R: AsyncRead, W: AsyncWrite> {
    pub steps: Seq<CopyStep<R, W>>,
    pub flush: Option<FlushStep<W>>,
}

/// The reads among `steps`, in order.
pub open spec fn reads_of<R: AsyncRead, W: AsyncWrite>(steps: Seq<CopyStep<R, W>>) -> Seq<
    ReadStep<R>,
>
    decreases steps.len(),
{
    if steps.len() == 0 {
        Seq::empty()
    } else {
        match steps.last() {
            CopyStep::Read(s) => reads_of(steps.drop_last()).push(s),
            CopyStep::Write(_) => reads_of(steps.drop_last()),
        }
    }
}

/// The writes among `steps`, in order.
pub open spec fn writes_of<R: AsyncRead, W: AsyncWrite>(steps: Seq<CopyStep<R, W>>) -> Seq<
    WriteStep<W>,
>
    decreases steps.len(),
{
    if steps.len() == 0 {
        Seq::empty()
    } else {
        match steps.last() {
            CopyStep::Read(_) => writes_of(steps.drop_last()),
            CopyStep::Write(s) => writes_of(steps.drop_last()).push(s),
        }
    }
}

/// The bytes that are pending after `steps`, where `pending` were pending
/// before them and every step kept to the order of a copy: a read is made
/// only when nothing is pending, is offered the whole relay buffer, and
/// what it hands out is pending from then on; a write is made only when
/// something is pending, offers exactly that, and what the sink took is
/// pending no more. `None` where a step broke that order.
pub open spec fn relayed<R: AsyncRead, W: AsyncWrite>(
    steps: Seq<CopyStep<R, W>>,
    pending: Seq<u8>,
) -> Option<Seq<u8>>
    decreases steps.len(),
{
    if steps.len() == 0 {
        Some(pending)
    } else {
        match relayed(steps.drop_last(), pending) {
            None => None,
            Some(p) => match steps.last() {
                CopyStep::Read(s) => if p.len() == 0 && s.cap == RELAY {
                    Some(s.data)
                } else {
                    None
                },
                CopyStep::Write(s) => if p.len() > 0 && s.offered == p {
                    Some(p.skip(moved(s.result) as int))
                } else {
                    None
                },
            },
        }
    }
}

impl<R: AsyncRead, W: AsyncWrite> CopyLog<R, W> {
    /// The reads of the call, in order.
    pub open spec fn reads(self) -> Seq<ReadStep<R>> {
        reads_of(self.steps)
    }

    /// The writes of the call, in order.
    pub open spec fn writes(self) -> Seq<WriteStep<W>> {
        writes_of(self.steps)
    }
}

/// A copy from `reader` to `writer` that has moved nothing yet.
pub fn copy<'a, R: AsyncRead, W: AsyncWrite>(reader: &'a mut R, writer: &'a mut W) -> (op: Copy<
    'a,
    R,
    W,
>)
    ensures
        op.wf(),
        *op.reader == *old(reader),
        *op.writer == *old(writer),
        *final(op.reader) == *final(reader),
        *final(op.writer) == *final(writer),
        !op.read_done,
        op.pos == 0,
        op.cap == 0,
        op.amt == 0,
{
    Copy { reader, read_done: false, writer, amt: 0, pos: 0, cap: 0, buf: vec![0u8; RELAY] }
}

impl<'a, R: AsyncRead, W: AsyncWrite> Copy<'a, R, W> {
    /// The relay buffer has its size, and the unwritten part lies in it.
    pub open spec fn wf(&self) -> bool {
        &&& self.buf@.len() == RELAY
        &&& self.pos <= self.cap <= RELAY
    }

    /// The source, as it stands.
    pub open spec fn source(&self) -> R {
        *self.reader
    }

    /// The sink, as it stands.
    pub open spec fn sink(&self) -> W {
        *self.writer
    }

    /// The bytes that were read and not yet written.
    pub open spec fn pending(&self) -> Seq<u8> {
        self.buf@.subrange(self.pos as int, self.cap as int)
    }

    /// What the copy does next: it writes while bytes are pending, reads
    /// only when none are, and flushes once the source has ended and all is
    /// written.
    pub open spec fn next_turn(&self) -> Turn {
        if self.pos < self.cap {
            Turn::Write
        } else if !self.read_done {
            Turn::Read
        } else {
            Turn::Flush
        }
    }

    /// What the copy does next.
    pub fn turn(&self) -> (t: Turn)
        ensures
            t == self.next_turn(),
    {
        if self.pos < self.cap {
            Turn::Write
        } else if !self.read_done {
            Turn::Read
        } else {
            Turn::Flush
        }
    }

    /// The reads and writes `steps` that a call of `poll` has made so far
    /// have led from `before` to `self`, the sink being left in state `w`.
    /// They kept to the order of a copy, so that no byte was lost, doubled
    /// or reordered on the way from the source to the sink.
    pub open spec fn progress(
        &self,
        before: &Self,
        steps: Seq<CopyStep<R, W>>,
        w: W,
    ) -> bool {
        let rt = reads_of(steps);
        let wt = writes_of(steps);
        &&& self.wf()
        &&& relayed(steps, before.pending()) == Some(self.pending())
        &&& read_run(rt, before.source(), self.source())
        &&& offered_each(rt, RELAY as nat)
        &&& before.read_done ==> rt.len() == 0
        &&& self.read_done == (before.read_done || (rt.len() > 0 && nothing(rt.last().result)))
        &&& write_run(wt, before.sink(), w)
        &&& offered_some(wt)
        &&& accepted(wt) + self.pending() == before.pending() + yielded(rt)
    }

    /// `self` is what a call of `poll` that asked `log` of the streams and
    /// answered `r` leaves of `before`.
    pub open spec fn polled(
        &self,
        before: &Self,
        log: CopyLog<R, W>,
        r: Poll<Result<u64, CopyError<R, W>>>,
    ) -> bool {
        let rt = log.reads();
        let wt = log.writes();
        let sum = before.amt + accepted(wt).len();
        &&& match log.flush {
            Some(f) => {
                &&& self.progress(before, log.steps, f.from)
                &&& f.valid()
                &&& f.to == self.sink()
                &&& productive_to_end(rt)
                &&& all_taken(wt)
                &&& self.read_done
                &&& self.pending().len() == 0
                &&& self.amt == sum
                &&& match r {
                    Poll::Ready(Ok(total)) => total == sum && f.result matches Poll::Ready(Ok(_)),
                    Poll::Ready(Err(CopyError::Flush(e))) => f.result == Poll::<
                        Result<(), W::FlushError>,
                    >::Ready(Err(e)),
                    Poll::Ready(Err(_)) => false,
                    Poll::Pending => f.result is Pending,
                }
            },
            None => {
                &&& self.progress(before, log.steps, self.sink())
                &&& match r {
                    Poll::Ready(Ok(_)) => false,
                    Poll::Ready(Err(CopyError::Flush(_))) => false,
                    Poll::Ready(Err(CopyError::Read(e))) => {
                        &&& self.amt == sum
                        &&& all_taken(wt)
                        &&& rt.len() > 0
                        &&& productive(rt.drop_last())
                        &&& rt.last().result == Poll::<Result<usize, R::Error>>::Ready(Err(e))
                    },
                    Poll::Ready(Err(CopyError::Write(e))) => {
                        &&& self.amt == sum
                        &&& productive(rt)
                        &&& wt.len() > 0
                        &&& all_taken(wt.drop_last())
                        &&& wt.last().result == Poll::<Result<usize, W::WriteError>>::Ready(Err(e))
                    },
                    Poll::Ready(Err(CopyError::WriteZero)) => {
                        &&& self.amt == sum
                        &&& productive(rt)
                        &&& wt.len() > 0
                        &&& all_taken(wt.drop_last())
                        &&& nothing(wt.last().result)
                    },
                    Poll::Pending => {
                        ||| {
                            &&& self.amt == sum
                            &&& all_taken(wt)
                            &&& rt.len() > 0
                            &&& productive(rt.drop_last())
                            &&& rt.last().result is Pending
                        }
                        ||| {
                            &&& self.amt == sum
                            &&& productive(rt)
                            &&& wt.len() > 0
                            &&& all_taken(wt.drop_last())
                            &&& wt.last().result is Pending
                        }
                        ||| {
                            &&& self.amt == sum - 0x1_0000_0000_0000_0000
                            &&& productive(rt)
                            &&& all_taken(wt)
                            &&& wt.len() > 0
                            &&& log.steps.len() > 0
                            &&& log.steps.last() matches CopyStep::Write(_)
                            &&& before.amt + accepted(wt.drop_last()).len() <= u64::MAX
                        }
                    },
                }
            },
        }
    }

    /// Moves bytes from the source to the sink until one of them has
    /// nothing ready, one of them fails, or the source has ended and the
    /// sink is flushed; the answer is then the number of bytes that the
    /// sink took since the copy was made.
    ///
    /// The count is kept in 64 bits. At the write with which it passes
    /// that, the count wraps, and the copy wakes its own task and answers
    /// `Pending` at once.
    pub fn poll(&mut self, cx: &mut Context<'_>) -> (r: Poll<Result<u64, CopyError<R, W>>>)
        requires
            old(self).wf(),
        ensures
            final(self).wf(),
            *final(final(self).reader) == *final(old(self).reader),
            *final(final(self).writer) == *final(old(self).writer),
            exists|log: CopyLog<R, W>| #[trigger] final(self).polled(old(self), log, r),
    {
        let ghost mut ev: Seq<CopyStep<R, W>> = Seq::empty();
        let ghost mut rt: Seq<ReadStep<R>> = Seq::empty();
        let ghost mut wt: Seq<WriteStep<W>> = Seq::empty();
        loop
            invariant
                *final(self.reader) == *final(old(self).reader),
                *final(self.writer) == *final(old(self).writer),
                rt == reads_of(ev),
                wt == writes_of(ev),
                self.progress(old(self), ev, *self.writer),
                productive_to_end(rt),
                productive(rt) || self.pos == self.cap,
                all_taken(wt),
                self.amt == old(self).amt + accepted(wt).len(),
            decreases
                u64::MAX - self.amt,
                (match self.next_turn() {
                    Turn::Read => 2nat,
                    Turn::Flush => 1nat,
                    Turn::Write => 0nat,
                }),
        {
            match self.turn() {
                Turn::Read => {
                    let ghost from = *self.reader;
                    let r = self.reader.poll_read(cx, self.buf.as_mut_slice());
                    proof {
                        let step = ReadStep {
                            from,
                            to: *self.reader,
                            cap: RELAY as nat,
                            result: r,
                            data: self.buf@.take(moved(r) as int),
                        };
                        assert(rt.push(step).drop_last() =~= rt);
                        assert(ev.push(CopyStep::Read(step)).drop_last() =~= ev);
                        rt = rt.push(step);
                        ev = ev.push(CopyStep::Read(step));
                    }
                    match r {
                        Poll::Pending => {
                            let out = Poll::Pending;
                            proof {
                                assert(self.buf@.take(0) =~= self.pending());
                                let log = CopyLog { steps: ev, flush: None };
                                assert(self.polled(old(self), log, out));
                            }
                            return out;
                        },
                        Poll::Ready(Err(e)) => {
                            let out = Poll::Ready(Err(CopyError::Read(e)));
                            proof {
                                assert(self.buf@.take(0) =~= self.pending());
                                let log = CopyLog { steps: ev, flush: None };
                                assert(self.polled(old(self), log, out));
                            }
                            return out;
                        },
                        Poll::Ready(Ok(n)) => {
                            if n == 0 {
                                self.read_done = true;
                            } else {
                                self.pos = 0;
                                self.cap = n;
                            }
                            assert(self.pending() =~= self.buf@.take(n as int));
                            assert(accepted(wt) + self.pending() =~= old(self).pending()
                                + yielded(rt));
                        },
                    }
                },
                Turn::Write => {
                    let ghost from = *self.writer;
                    let ghost had = self.pending();
                    let r = self.writer.poll_write(
                        cx,
                        slice_subrange(self.buf.as_slice(), self.pos, self.cap),
                    );
                    proof {
                        let step = WriteStep { from, to: *self.writer, offered: had, result: r };
                        assert(wt.push(step).drop_last() =~= wt);
                        assert(ev.push(CopyStep::Write(step)).drop_last() =~= ev);
                        assert(had.skip(0) =~= had);
                        wt = wt.push(step);
                        ev = ev.push(CopyStep::Write(step));
                    }
                    match r {
                        Poll::Pending => {
                            let out = Poll::Pending;
                            proof {
                                let log = CopyLog { steps: ev, flush: None };
                                assert(self.polled(old(self), log, out));
                            }
                            return out;
                        },
                        Poll::Ready(Err(e)) => {
                            let out = Poll::Ready(Err(CopyError::Write(e)));
                            proof {
                                let log = CopyLog { steps: ev, flush: None };
                                assert(self.polled(old(self), log, out));
                            }
                            return out;
                        },
                        Poll::Ready(Ok(i)) => {
                            if i == 0 {
                                let out = Poll::Ready(Err(CopyError::WriteZero));
                                proof {
                                    let log = CopyLog { steps: ev, flush: None };
                                    assert(self.polled(old(self), log, out));
                                }
                                return out;
                            }
                            self.pos += i;
                            assert(self.pending() =~= had.skip(i as int));
                            assert(accepted(wt) + self.pending() =~= old(self).pending()
                                + yielded(rt));
                            let room: u64 = u64::MAX - self.amt;
                            if i as u64 <= room {
                                self.amt += i as u64;
                            } else {
                                self.amt = i as u64 - room - 1;
                                wake_by_ref(waker_of(cx));
                                let out = Poll::Pending;
                                proof {
                                    let log = CopyLog { steps: ev, flush: None };
                                    assert(self.polled(old(self), log, out));
                                }
                                return out;
                            }
                        },
                    }
                },
                Turn::Flush => {
                    let ghost from = *self.writer;
                    let r = self.writer.poll_flush(cx);
                    let ghost step = FlushStep { from, to: *self.writer, result: r };
                    let ghost log = CopyLog { steps: ev, flush: Some(step) };
                    match r {
                        Poll::Pending => {
                            let out = Poll::Pending;
                            assert(self.polled(old(self), log, out));
                            return out;
                        },
                        Poll::Ready(Err(e)) => {
                            let out = Poll::Ready(Err(CopyError::Flush(e)));
                            assert(self.polled(old(self), log, out));
                            return out;
                        },
                        Poll::Ready(Ok(_)) => {
                            let out = Poll::Ready(Ok(self.amt));
                            assert(self.polled(old(self), log, out));
                            return out;
                        },
                    }
                },
            }
        }
    }
}

} // verus!
