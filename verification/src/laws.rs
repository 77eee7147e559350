//! What holds of the operations whatever the streams do, and what holds of
//! them on the streams of this library.

use core::task::Poll;
use vstd::prelude::*;
use crate::copy::{CopyError, CopyLog, RELAY};
use crate::ext::read::chain::{from_left, from_right, Chain};
use crate::ext::read::read_exact::{read_exact_polled, ReadExactError};
use crate::ext::read::read_to_end::{read_to_end_polled, CHUNK};
use crate::ext::read::take::{clipped, Take};
use crate::ext::write::write_all::{write_all_polled, WriteAllError};
use crate::read::AsyncRead;
use crate::record::{
    accepted, at_end, lemma_first_write_offers_all, lemma_offered_each_first,
    lemma_offered_each_last, lemma_offered_rest_first, lemma_offered_room_first,
    lemma_productive_first, lemma_read_run_first, productive, read_run, write_run, yielded,
    ReadStep, WriteStep,
};
use crate::simple::Empty;
use crate::task::{moved, nothing};
use crate::write::AsyncWrite;

verus! {

/// `ReadExact` succeeds only when the source has handed out every byte that
/// was missing. Against a source that hands out fewer before it stops, the
/// answer is never success; and if the source stopped by reporting its
/// end, the answer is the short-read error.
pub proof fn law_read_exact_short_source<A: AsyncRead>(
    t: Seq<ReadStep<A>>,
    a0: A,
    a1: A,
    buf0: Seq<u8>,
    buf1: Seq<u8>,
    pos0: nat,
    pos1: nat,
    r: Poll<Result<usize, ReadExactError<A::Error>>>,
)
    requires
        read_exact_polled(t, a0, a1, buf0, buf1, pos0, pos1, r),
        pos0 + yielded(t).len() < buf0.len(),
    ensures
        !(r matches Poll::Ready(Ok(_))),
        t.len() > 0,
        nothing(t.last().result) ==> r matches Poll::Ready(Err(ReadExactError::Eof)),
{
}

/// Against a source that is at its end, `ReadExact` with room left in its
/// buffer answers with the short-read error after one poll, and nothing is
/// put in place.
pub proof fn law_read_exact_at_end<A: AsyncRead>(
    t: Seq<ReadStep<A>>,
    a0: A,
    a1: A,
    buf0: Seq<u8>,
    buf1: Seq<u8>,
    pos0: nat,
    pos1: nat,
    r: Poll<Result<usize, ReadExactError<A::Error>>>,
)
    requires
        at_end(a0),
        pos0 < buf0.len(),
        read_exact_polled(t, a0, a1, buf0, buf1, pos0, pos1, r),
    ensures
        r matches Poll::Ready(Err(ReadExactError::Eof)),
        t.len() == 1,
        pos1 == pos0,
        a1 == a0,
{
    if t.len() == 0 {
        assert(yielded(t) =~= Seq::<u8>::empty());
    } else {
        lemma_read_run_first(t, a0, a1);
        lemma_offered_rest_first(t, (buf0.len() - pos0) as nat);
        if t.len() > 1 {
            lemma_productive_first(t.drop_last());
        }
    }
}

/// With nothing left to fill, `ReadExact` succeeds without polling the
/// source: the source and the buffer stay as they were.
pub proof fn law_read_exact_nothing_to_fill<A: AsyncRead>(
    t: Seq<ReadStep<A>>,
    a0: A,
    a1: A,
    buf0: Seq<u8>,
    buf1: Seq<u8>,
    pos0: nat,
    pos1: nat,
    r: Poll<Result<usize, ReadExactError<A::Error>>>,
)
    requires
        pos0 == buf0.len(),
        read_exact_polled(t, a0, a1, buf0, buf1, pos0, pos1, r),
    ensures
        t.len() == 0,
        r matches Poll::Ready(Ok(n)) && n == buf0.len(),
        a1 == a0,
        buf1 == buf0,
        pos1 == pos0,
{
    if t.len() > 0 {
        lemma_offered_rest_first(t, 0);
        lemma_offered_room_first(t);
    }
    assert(buf1 =~= buf1.take(pos0 as int));
}

/// `ReadExact` answers success exactly when the buffer is full, and then
/// with the length of the buffer.
pub proof fn law_read_exact_success<A: AsyncRead>(
    t: Seq<ReadStep<A>>,
    a0: A,
    a1: A,
    buf0: Seq<u8>,
    buf1: Seq<u8>,
    pos0: nat,
    pos1: nat,
    r: Poll<Result<usize, ReadExactError<A::Error>>>,
)
    requires
        read_exact_polled(t, a0, a1, buf0, buf1, pos0, pos1, r),
    ensures
        r matches Poll::Ready(Ok(n)) ==> n == buf0.len() && pos0 + yielded(t).len() == buf0.len(),
        pos1 == buf0.len() && productive(t) ==> r matches Poll::Ready(Ok(_)),
{
}

/// Reading a source that is at its end to the end appends nothing: the one
/// poll that is made hands out nothing, the buffer stays as it was, the
/// source stays as it was, and the answer counts what the buffer held
/// beyond `start_len` before.
pub proof fn law_read_to_end_at_end<R: AsyncRead>(
    t: Seq<ReadStep<R>>,
    a0: R,
    a1: R,
    buf0: Seq<u8>,
    buf1: Seq<u8>,
    start_len: nat,
    r: Poll<Result<usize, R::Error>>,
)
    requires
        at_end(a0),
        start_len <= buf0.len(),
        read_to_end_polled(t, a0, a1, buf0, buf1, start_len, r),
    ensures
        t.len() == 1,
        a1 == a0,
        buf1 == buf0,
        r matches Poll::Ready(Ok(n)) && n == buf0.len() - start_len,
{
    lemma_read_run_first(t, a0, a1);
    lemma_offered_each_first(t, CHUNK as nat);
    if t.len() > 1 {
        lemma_productive_first(t.drop_last());
    }
    assert(yielded(t) =~= Seq::<u8>::empty()) by {
        assert(yielded(t.drop_last()) =~= Seq::<u8>::empty());
    }
}

/// Reading a source that is at its end to the end twice, each time with a
/// fresh operation on the same buffer, answers zero both times and leaves
/// the buffer as it was.
pub proof fn law_read_to_end_twice<R: AsyncRead>(
    t1: Seq<ReadStep<R>>,
    t2: Seq<ReadStep<R>>,
    a0: R,
    a1: R,
    a2: R,
    buf0: Seq<u8>,
    buf1: Seq<u8>,
    buf2: Seq<u8>,
    r1: Poll<Result<usize, R::Error>>,
    r2: Poll<Result<usize, R::Error>>,
)
    requires
        at_end(a0),
        read_to_end_polled(t1, a0, a1, buf0, buf1, buf0.len(), r1),
        read_to_end_polled(t2, a1, a2, buf1, buf2, buf1.len(), r2),
    ensures
        r1 matches Poll::Ready(Ok(n)) && n == 0,
        r2 matches Poll::Ready(Ok(n)) && n == 0,
        buf2 == buf0,
        a2 == a0,
{
    law_read_to_end_at_end(t1, a0, a1, buf0, buf1, buf0.len(), r1);
    law_read_to_end_at_end(t2, a1, a2, buf1, buf2, buf1.len(), r2);
}

/// `Empty` is at its end from the start.
pub proof fn law_empty_at_end(a: Empty)
    ensures
        at_end(a),
{
}

/// A byte slice of which nothing is left is at its end.
pub proof fn law_drained_slice_at_end(a: &[u8])
    requires
        a@.len() == 0,
    ensures
        at_end(a),
{
    assert forall|next: &[u8], cap: nat, r: Poll<Result<usize, void::Void>>, data: Seq<u8>|
        cap > 0 && #[trigger] a.read_step(&next, cap, r, data) implies next == a && nothing(r) by {
    }
}

/// A `Take` whose budget is spent is at its end, whatever the source
/// inside it still has.
pub proof fn law_spent_take_at_end<R: AsyncRead>(a: Take<R>)
    requires
        a.budget() == 0,
    ensures
        at_end(a),
{
}

/// `Take` never asks its source for more than its budget, nor for more
/// than the caller's buffer holds, and never passes on more than it asked
/// for.
pub proof fn law_take_asks_within_budget<R: AsyncRead>(
    a: Take<R>,
    next: Take<R>,
    cap: nat,
    r: Poll<Result<usize, R::Error>>,
    data: Seq<u8>,
)
    requires
        a.read_step(&next, cap, r, data),
    ensures
        clipped(cap, a.budget()) <= a.budget(),
        clipped(cap, a.budget()) <= cap,
        moved(r) <= clipped(cap, a.budget()),
        a.budget() > 0 ==> a.inner().read_step(&next.inner(), clipped(cap, a.budget()), r, data),
        a.budget() == 0 ==> next.inner() == a.inner(),
        next.budget() + moved(r) == a.budget(),
{
}

/// Over any number of polls, the bytes that a `Take` yields and the budget
/// that it has left add up to the budget that it started with: it never
/// yields more than that.
pub proof fn law_take_total_within_budget<R: AsyncRead>(
    t: Seq<ReadStep<Take<R>>>,
    a: Take<R>,
    b: Take<R>,
)
    requires
        read_run(t, a, b),
    ensures
        yielded(t).len() + b.budget() == a.budget(),
        yielded(t).len() <= a.budget(),
    decreases t.len(),
{
    if t.len() > 0 {
        law_take_total_within_budget(t.drop_last(), a, t.last().from);
    }
}

/// When `WriteAll` answers success, the sink has taken the whole buffer,
/// byte for byte and in order, over the writes of this call.
pub proof fn law_write_all_places_all<W: AsyncWrite>(
    t: Seq<WriteStep<W>>,
    w0: W,
    w1: W,
    src0: Seq<u8>,
    src1: Seq<u8>,
    r: Poll<Result<(), WriteAllError<W::WriteError>>>,
)
    requires
        write_all_polled(t, w0, w1, src0, src1, r),
        r matches Poll::Ready(Ok(_)),
    ensures
        accepted(t) == src0,
        src1.len() == 0,
{
}

/// With nothing to write, `WriteAll` succeeds without writing to the sink:
/// the sink stays as it was.
pub proof fn law_write_all_nothing_to_write<W: AsyncWrite>(
    t: Seq<WriteStep<W>>,
    w0: W,
    w1: W,
    src0: Seq<u8>,
    src1: Seq<u8>,
    r: Poll<Result<(), WriteAllError<W::WriteError>>>,
)
    requires
        src0.len() == 0,
        write_all_polled(t, w0, w1, src0, src1, r),
    ensures
        t.len() == 0,
        r matches Poll::Ready(Ok(_)),
        w1 == w0,
{
    if t.len() > 0 {
        lemma_first_write_offers_all(t, src0);
    }
}

/// Whatever the source does, reading it to the end leaves in place what
/// the buffer held: the buffer only grows, by the bytes that the source
/// handed out.
pub proof fn law_read_to_end_keeps_what_it_held<R: AsyncRead>(
    t: Seq<ReadStep<R>>,
    a0: R,
    a1: R,
    buf0: Seq<u8>,
    buf1: Seq<u8>,
    start_len: nat,
    r: Poll<Result<usize, R::Error>>,
)
    requires
        read_to_end_polled(t, a0, a1, buf0, buf1, start_len, r),
    ensures
        buf0.len() <= buf1.len(),
        buf1.take(buf0.len() as int) == buf0,
        buf1.skip(buf0.len() as int) == yielded(t),
{
}

/// A vector that is written to ends up holding what it held before,
/// followed by all that it took.
pub proof fn law_vec_keeps_what_it_takes(t: Seq<WriteStep<Vec<u8>>>, a: Vec<u8>, b: Vec<u8>)
    requires
        write_run(t, a, b),
    ensures
        b@ == a@ + accepted(t),
    decreases t.len(),
{
    if t.len() > 0 {
        law_vec_keeps_what_it_takes(t.drop_last(), a, t.last().from);
    }
}

/// A byte slice that is read hands out its bytes from the front, in order,
/// and keeps the rest.
pub proof fn law_slice_yields_its_front(t: Seq<ReadStep<&[u8]>>, a: &[u8], b: &[u8])
    requires
        read_run(t, a, b),
    ensures
        yielded(t).len() <= a@.len(),
        yielded(t) == a@.take(yielded(t).len() as int),
        b@ == a@.skip(yielded(t).len() as int),
    decreases t.len(),
{
    if t.len() > 0 {
        law_slice_yields_its_front(t.drop_last(), a, t.last().from);
    }
}

/// `WriteAll` into a vector succeeds in its first call and appends the
/// whole buffer.
pub proof fn law_write_all_into_vec(
    t: Seq<WriteStep<Vec<u8>>>,
    w0: Vec<u8>,
    w1: Vec<u8>,
    src0: Seq<u8>,
    src1: Seq<u8>,
    r: Poll<Result<(), WriteAllError<void::Void>>>,
)
    requires
        write_all_polled(t, w0, w1, src0, src1, r),
    ensures
        r matches Poll::Ready(Ok(_)),
        src1.len() == 0,
        w1@ == w0@ + src0,
{
    law_vec_keeps_what_it_takes(t, w0, w1);
}

/// `ReadExact` from a byte slice is over in one call. If the slice has
/// enough bytes, the buffer is filled with its front and the rest of the
/// slice is kept; if not, all of the slice is put in place, the buffer
/// behind it stays as it was, and the answer is the short-read error.
pub proof fn law_read_exact_from_slice(
    t: Seq<ReadStep<&[u8]>>,
    a0: &[u8],
    a1: &[u8],
    buf0: Seq<u8>,
    buf1: Seq<u8>,
    pos0: nat,
    pos1: nat,
    r: Poll<Result<usize, ReadExactError<void::Void>>>,
)
    requires
        read_exact_polled(t, a0, a1, buf0, buf1, pos0, pos1, r),
    ensures
        pos0 + a0@.len() >= buf0.len() ==> {
            &&& r matches Poll::Ready(Ok(n)) && n == buf0.len()
            &&& buf1 == buf0.take(pos0 as int) + a0@.take(buf0.len() - pos0)
            &&& a1@ == a0@.skip(buf0.len() - pos0)
        },
        pos0 + a0@.len() < buf0.len() ==> {
            &&& r matches Poll::Ready(Err(ReadExactError::Eof))
            &&& pos1 == pos0 + a0@.len()
            &&& buf1 == buf0.take(pos0 as int) + a0@ + buf0.skip(pos1 as int)
            &&& a1@.len() == 0
        },
{
    law_slice_yields_its_front(t, a0, a1);
    if t.len() > 0 {
        law_slice_yields_its_front(t.drop_last(), a0, t.last().from);
    }
    assert(buf1 =~= buf1.take(pos0 as int) + buf1.subrange(pos0 as int, pos1 as int) + buf1.skip(
        pos1 as int,
    ));
}

/// `ReadToEnd` from a byte slice succeeds in its first call, appends all
/// that was left of the slice, and leaves none of it.
pub proof fn law_read_slice_to_end(
    t: Seq<ReadStep<&[u8]>>,
    a0: &[u8],
    a1: &[u8],
    buf0: Seq<u8>,
    buf1: Seq<u8>,
    start_len: nat,
    r: Poll<Result<usize, void::Void>>,
)
    requires
        start_len <= buf0.len(),
        read_to_end_polled(t, a0, a1, buf0, buf1, start_len, r),
    ensures
        buf1 == buf0 + a0@,
        a1@.len() == 0,
        r matches Poll::Ready(Ok(n)) && n == buf0.len() + a0@.len() - start_len,
{
    law_slice_yields_its_front(t.drop_last(), a0, t.last().from);
    law_slice_yields_its_front(t, a0, a1);
    lemma_offered_each_last(t, CHUNK as nat);
}

/// Writing bytes into an empty vector with `WriteAll` and reading the
/// vector back with `ReadToEnd` gives exactly those bytes: both operations
/// succeed in their first call, and what is read is appended to what the
/// buffer held.
pub proof fn law_write_then_read_back(
    b: Seq<u8>,
    wt: Seq<WriteStep<Vec<u8>>>,
    sink0: Vec<u8>,
    sink1: Vec<u8>,
    left: Seq<u8>,
    rw: Poll<Result<(), WriteAllError<void::Void>>>,
    rt: Seq<ReadStep<&[u8]>>,
    src0: &[u8],
    src1: &[u8],
    out0: Seq<u8>,
    out1: Seq<u8>,
    rr: Poll<Result<usize, void::Void>>,
)
    requires
        sink0@.len() == 0,
        write_all_polled(wt, sink0, sink1, b, left, rw),
        src0@ == sink1@,
        read_to_end_polled(rt, src0, src1, out0, out1, out0.len(), rr),
    ensures
        rw matches Poll::Ready(Ok(_)),
        rr matches Poll::Ready(Ok(n)) && n == b.len(),
        out1 == out0 + b,
{
    law_write_all_into_vec(wt, sink0, sink1, b, left, rw);
    law_read_slice_to_end(rt, src0, src1, out0, out1, out0.len(), rr);
}

/// A run of polls of a `Take` is a run of polls of the source inside it,
/// less the polls at which the budget was spent, and the `Take` yields
/// exactly what its source handed out.
pub proof fn law_take_yields_what_its_source_yields<R: AsyncRead>(
    t: Seq<ReadStep<Take<R>>>,
    a: Take<R>,
    b: Take<R>,
) -> (u: Seq<ReadStep<R>>)
    requires
        read_run(t, a, b),
    ensures
        read_run(u, a.inner(), b.inner()),
        yielded(u) == yielded(t),
        u.len() <= t.len(),
    decreases t.len(),
{
    if t.len() == 0 {
        Seq::<ReadStep<R>>::empty()
    } else {
        let s = t.last();
        let u0 = law_take_yields_what_its_source_yields(t.drop_last(), a, s.from);
        if s.from.budget() == 0 {
            u0
        } else {
            let step = ReadStep {
                from: s.from.inner(),
                to: b.inner(),
                cap: clipped(s.cap, s.from.budget()),
                result: s.result,
                data: s.data,
            };
            let u = u0.push(step);
            assert(u.drop_last() =~= u0);
            u
        }
    }
}

/// A run of polls of a chain is a run of polls of its first source
/// followed by a run of polls of its second, and the chain yields what the
/// first yielded, followed by what the second yielded.
///
/// Once the first source has reported its end it is not polled again; the
/// second is not polled before that; and where the end of the first falls
/// into the run, the last poll of the first is the one that reported it,
/// into a buffer that was not empty.
pub proof fn law_chain_first_then_second<T: AsyncRead, U: AsyncRead>(
    t: Seq<ReadStep<Chain<T, U>>>,
    c0: Chain<T, U>,
    c1: Chain<T, U>,
) -> (parts: (Seq<ReadStep<T>>, Seq<ReadStep<U>>))
    requires
        read_run(t, c0, c1),
    ensures
        read_run(parts.0, c0.first(), c1.first()),
        read_run(parts.1, c0.second(), c1.second()),
        yielded(t) == yielded(parts.0) + yielded(parts.1),
        c0.done_first() ==> c1.done_first() && parts.0.len() == 0,
        !c1.done_first() ==> parts.1.len() == 0,
        !c0.done_first() && c1.done_first() ==> {
            &&& parts.0.len() > 0
            &&& nothing(parts.0.last().result)
            &&& parts.0.last().cap > 0
        },
    decreases t.len(),
{
    if t.len() == 0 {
        (Seq::empty(), Seq::empty())
    } else {
        let s = t.last();
        let c = s.from;
        let (pa, pb) = law_chain_first_then_second(t.drop_last(), c0, c);
        if c.done_first() {
            let rb = choose|rb: Poll<Result<usize, U::Error>>|
                {
                    &&& s.result == from_right::<T::Error, U::Error>(rb)
                    &&& #[trigger] c.second().read_step(&c1.second(), s.cap, rb, s.data)
                };
            let sb = ReadStep { from: c.second(), to: c1.second(), cap: s.cap, result: rb, data: s.data };
            let pb2 = pb.push(sb);
            assert(pb2.drop_last() =~= pb);
            (pa, pb2)
        } else if c1.done_first() {
            let rb = choose|rb: Poll<Result<usize, U::Error>>|
                {
                    &&& s.result == from_right::<T::Error, U::Error>(rb)
                    &&& #[trigger] c.second().read_step(&c1.second(), s.cap, rb, s.data)
                };
            let sa = ReadStep {
                from: c.first(),
                to: c1.first(),
                cap: s.cap,
                result: Poll::<Result<usize, T::Error>>::Ready(Ok(0usize)),
                data: Seq::<u8>::empty(),
            };
            let sb = ReadStep { from: c.second(), to: c1.second(), cap: s.cap, result: rb, data: s.data };
            let pa2 = pa.push(sa);
            let pb2 = pb.push(sb);
            assert(pa2.drop_last() =~= pa);
            assert(pb2.drop_last() =~= pb);
            (pa2, pb2)
        } else {
            let ra = choose|ra: Poll<Result<usize, T::Error>>|
                {
                    &&& s.result == from_left::<T::Error, U::Error>(ra)
                    &&& #[trigger] c.first().read_step(&c1.first(), s.cap, ra, s.data)
                };
            let sa = ReadStep { from: c.first(), to: c1.first(), cap: s.cap, result: ra, data: s.data };
            let pa2 = pa.push(sa);
            assert(pa2.drop_last() =~= pa);
            (pa2, pb)
        }
    }
}

/// When a copy answers with a total, the sink has been flushed, once, after
/// the last write and after the source reported its end; everything that
/// was read has been written; and the total is the count that the call
/// started with plus the number of bytes that the sink took during it.
pub proof fn law_copy_total<R: AsyncRead, W: AsyncWrite>(
    after: &crate::copy::Copy<R, W>,
    before: &crate::copy::Copy<R, W>,
    log: CopyLog<R, W>,
    total: u64,
)
    requires
        after.polled(before, log, Poll::Ready(Ok(total))),
    ensures
        total == before.amt + accepted(log.writes()).len(),
        log.flush matches Some(f) && f.result matches Poll::Ready(Ok(_)) && write_run(
            log.writes(),
            before.sink(),
            f.from,
        ),
        after.read_done,
        accepted(log.writes()) == before.pending() + yielded(log.reads()),
{
}

/// Over two calls, of which the first answers `Pending`, the total that
/// the second reports is the count at the start plus what the sink took
/// in both, as long as that fits in 64 bits.
pub proof fn law_copy_total_over_calls<R: AsyncRead, W: AsyncWrite>(
    before: &crate::copy::Copy<R, W>,
    between: &crate::copy::Copy<R, W>,
    after: &crate::copy::Copy<R, W>,
    first: CopyLog<R, W>,
    second: CopyLog<R, W>,
    total: u64,
)
    requires
        between.polled(before, first, Poll::Pending),
        after.polled(between, second, Poll::Ready(Ok(total))),
        before.amt + accepted(first.writes()).len() <= u64::MAX,
    ensures
        total == before.amt + accepted(first.writes()).len() + accepted(second.writes()).len(),
{
}

/// A copy flushes only when the source has reported its end and nothing
/// is left to write, and in no call more than once.
pub proof fn law_copy_flushes_last<R: AsyncRead, W: AsyncWrite>(
    after: &crate::copy::Copy<R, W>,
    before: &crate::copy::Copy<R, W>,
    log: CopyLog<R, W>,
    r: Poll<Result<u64, CopyError<R, W>>>,
)
    requires
        after.polled(before, log, r),
    ensures
        log.flush is Some ==> after.read_done && after.pending().len() == 0,
        log.flush is None ==> !(r matches Poll::Ready(Ok(_))),
{
}

/// A copy from a byte slice into a vector is over in one call: the vector
/// ends up holding what it held, then what was pending, then the slice;
/// nothing is left of the slice; and the total is the count at the start
/// plus the number of bytes moved.
pub proof fn law_copy_slice_into_vec(
    after: &crate::copy::Copy<&[u8], Vec<u8>>,
    before: &crate::copy::Copy<&[u8], Vec<u8>>,
    log: CopyLog<&[u8], Vec<u8>>,
    r: Poll<Result<u64, CopyError<&[u8], Vec<u8>>>>,
)
    requires
        !before.read_done,
        before.amt + before.pending().len() + before.source()@.len() <= u64::MAX,
        after.polled(before, log, r),
    ensures
        r matches Poll::Ready(Ok(total)) && total == before.amt + before.pending().len() + (
        before.source())@.len(),
        after.sink()@ == before.sink()@ + before.pending() + before.source()@,
        after.source()@.len() == 0,
{
    let rt = log.reads();
    let wt = log.writes();
    let a0 = before.source();
    let a1 = after.source();
    law_slice_yields_its_front(rt, a0, a1);
    assert(accepted(wt).len() + after.pending().len() == before.pending().len() + yielded(
        rt,
    ).len());
    if rt.len() > 0 {
        law_slice_yields_its_front(rt.drop_last(), a0, rt.last().from);
        lemma_offered_each_last(rt, RELAY as nat);
    }
    match log.flush {
        Some(f) => {
            law_vec_keeps_what_it_takes(wt, before.sink(), f.from);
        },
        None => {
            law_vec_keeps_what_it_takes(wt, before.sink(), after.sink());
        },
    }
}

} // verus!
