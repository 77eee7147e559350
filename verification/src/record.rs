//! Records of what was asked of a stream, and what it answered.
//!
//! A contract of an operation that polls its stream many times speaks of
//! the polls it made: a sequence of steps, each holding the state of the
//! stream before and after, what was offered, and the answer.

use core::task::Poll;
use vstd::prelude::*;
use crate::read::AsyncRead;
use crate::task::{moved, nothing};
use crate::write::AsyncWrite;

verus! {

/// One poll of a source, written down: the state before and after, the
/// size of the buffer that was offered, the answer, and the bytes handed
/// out.
pub struct ReadStep<R: AsyncRead> {
    pub from: R,
    pub to: R,
    pub cap: nat,
    pub result: Poll<Result<usize, R::Error>>,
    pub data: Seq<u8>,
}

impl<R: AsyncRead> ReadStep<R> {
    /// The step is one that `poll_read` can take.
    pub open spec fn valid(self) -> bool {
        &&& self.from.read_step(&self.to, self.cap, self.result, self.data)
        &&& self.data.len() == moved(self.result)
        &&& self.data.len() <= self.cap
    }
}

/// `t` lists consecutive polls that lead a source from state `a` to state
/// `b`.
pub open spec fn read_run<R: AsyncRead>(t: Seq<ReadStep<R>>, a: R, b: R) -> bool
    decreases t.len(),
{
    if t.len() == 0 {
        a == b
    } else {
        &&& read_run(t.drop_last(), a, t.last().from)
        &&& t.last().valid()
        &&& t.last().to == b
    }
}

/// The bytes that the polls of `t` handed out, in order.
pub open spec fn yielded<R: AsyncRead>(t: Seq<ReadStep<R>>) -> Seq<u8>
    decreases t.len(),
{
    if t.len() == 0 {
        Seq::empty()
    } else {
        yielded(t.drop_last()) + t.last().data
    }
}

/// Every poll of `t` handed out at least one byte.
pub open spec fn productive<R: AsyncRead>(t: Seq<ReadStep<R>>) -> bool
    decreases t.len(),
{
    t.len() > 0 ==> productive(t.drop_last()) && t.last().data.len() > 0
}

/// Each poll of `t` was offered what was left of `room` bytes after the
/// polls before it.
pub open spec fn offered_rest<R: AsyncRead>(t: Seq<ReadStep<R>>, room: nat) -> bool
    decreases t.len(),
{
    t.len() > 0 ==> offered_rest(t.drop_last(), room) && t.last().cap + yielded(
        t.drop_last(),
    ).len() == room
}

/// Every poll of `t` was offered at least one byte.
pub open spec fn offered_room<R: AsyncRead>(t: Seq<ReadStep<R>>) -> bool
    decreases t.len(),
{
    t.len() > 0 ==> offered_room(t.drop_last()) && t.last().cap > 0
}

/// Every poll of `t` was offered `cap` bytes.
pub open spec fn offered_each<R: AsyncRead>(t: Seq<ReadStep<R>>, cap: nat) -> bool
    decreases t.len(),
{
    t.len() > 0 ==> offered_each(t.drop_last(), cap) && t.last().cap == cap
}

/// The source is at its end: it answers every read into a non-empty
/// buffer with zero bytes, and stays as it is.
pub open spec fn at_end<R: AsyncRead>(a: R) -> bool {
    forall|next: R, cap: nat, r: Poll<Result<usize, R::Error>>, data: Seq<u8>|
        cap > 0 && #[trigger] a.read_step(&next, cap, r, data) ==> next == a && nothing(r)
}

/// Every poll of `t` handed out at least one byte, but for the last, which
/// may have reported the end of the stream.
pub open spec fn productive_to_end<R: AsyncRead>(t: Seq<ReadStep<R>>) -> bool {
    productive(t) || (t.len() > 0 && productive(t.drop_last()) && nothing(t.last().result))
}

/// In a run of polls, the first starts from the state that the run starts
/// from.
pub proof fn lemma_read_run_first<R: AsyncRead>(t: Seq<ReadStep<R>>, a: R, b: R)
    requires
        read_run(t, a, b),
        t.len() > 0,
    ensures
        t[0].from == a,
        t[0].valid(),
    decreases t.len(),
{
    if t.len() > 1 {
        lemma_read_run_first(t.drop_last(), a, t.last().from);
    } else {
        assert(read_run(t.drop_last(), a, t.last().from));
    }
}

/// Where every poll of a run handed out a byte, so did the first.
pub proof fn lemma_productive_first<R: AsyncRead>(t: Seq<ReadStep<R>>)
    requires
        productive(t),
        t.len() > 0,
    ensures
        t[0].data.len() > 0,
    decreases t.len(),
{
    if t.len() > 1 {
        lemma_productive_first(t.drop_last());
    }
}

/// Where every poll of a run was offered `cap` bytes, so was the first.
pub proof fn lemma_offered_each_first<R: AsyncRead>(t: Seq<ReadStep<R>>, cap: nat)
    requires
        offered_each(t, cap),
        t.len() > 0,
    ensures
        t[0].cap == cap,
    decreases t.len(),
{
    if t.len() > 1 {
        lemma_offered_each_first(t.drop_last(), cap);
    }
}

/// Where each poll of a run was offered what was left of `room` bytes, the
/// first was offered all of them.
pub proof fn lemma_offered_rest_first<R: AsyncRead>(t: Seq<ReadStep<R>>, room: nat)
    requires
        offered_rest(t, room),
        t.len() > 0,
    ensures
        t[0].cap == room,
    decreases t.len(),
{
    if t.len() > 1 {
        lemma_offered_rest_first(t.drop_last(), room);
    }
}

/// Where every poll of a run was offered at least one byte, so was the
/// first.
pub proof fn lemma_offered_room_first<R: AsyncRead>(t: Seq<ReadStep<R>>)
    requires
        offered_room(t),
        t.len() > 0,
    ensures
        t[0].cap > 0,
    decreases t.len(),
{
    if t.len() > 1 {
        lemma_offered_room_first(t.drop_last());
    }
}

/// Where every poll of a run was offered `cap` bytes, so was the last.
pub proof fn lemma_offered_each_last<R: AsyncRead>(t: Seq<ReadStep<R>>, cap: nat)
    requires
        offered_each(t, cap),
        t.len() > 0,
    ensures
        t.last().cap == cap,
{
}

/// One `poll_write` of a sink, written down: the state before and after,
/// the bytes that were offered, and the answer.
pub struct WriteStep<W: AsyncWrite> {
    pub from: W,
    pub to: W,
    pub offered: Seq<u8>,
    pub result: Poll<Result<usize, W::WriteError>>,
}

impl<W: AsyncWrite> WriteStep<W> {
    /// The step is one that `poll_write` can take.
    pub open spec fn valid(self) -> bool {
        &&& self.from.write_step(&self.to, self.offered, self.result)
        &&& moved(self.result) <= self.offered.len()
    }

    /// The bytes that the sink took in this step.
    pub open spec fn taken(self) -> Seq<u8> {
        self.offered.take(moved(self.result) as int)
    }
}

/// `t` lists consecutive writes that lead a sink from state `a` to state
/// `b`.
pub open spec fn write_run<W: AsyncWrite>(t: Seq<WriteStep<W>>, a: W, b: W) -> bool
    decreases t.len(),
{
    if t.len() == 0 {
        a == b
    } else {
        &&& write_run(t.drop_last(), a, t.last().from)
        &&& t.last().valid()
        &&& t.last().to == b
    }
}

/// The bytes that the sink took over the writes of `t`, in order.
pub open spec fn accepted<W: AsyncWrite>(t: Seq<WriteStep<W>>) -> Seq<u8>
    decreases t.len(),
{
    if t.len() == 0 {
        Seq::empty()
    } else {
        accepted(t.drop_last()) + t.last().taken()
    }
}

/// In every write of `t` the sink took at least one byte.
pub open spec fn all_taken<W: AsyncWrite>(t: Seq<WriteStep<W>>) -> bool
    decreases t.len(),
{
    t.len() > 0 ==> all_taken(t.drop_last()) && moved(t.last().result) > 0
}

/// Every write of `t` offered at least one byte.
pub open spec fn offered_some<W: AsyncWrite>(t: Seq<WriteStep<W>>) -> bool
    decreases t.len(),
{
    t.len() > 0 ==> offered_some(t.drop_last()) && t.last().offered.len() > 0
}

/// Each write of `t` offered all of `src` that the writes before it had
/// not placed.
pub open spec fn offered_unwritten<W: AsyncWrite>(t: Seq<WriteStep<W>>, src: Seq<u8>) -> bool
    decreases t.len(),
{
    t.len() > 0 ==> {
        &&& offered_unwritten(t.drop_last(), src)
        &&& accepted(t.drop_last()).len() <= src.len()
        &&& t.last().offered == src.skip(accepted(t.drop_last()).len() as int)
    }
}

/// One `poll_flush` of a sink, written down.
pub struct FlushStep<W: AsyncWrite> {
    pub from: W,
    pub to: W,
    pub result: Poll<Result<(), W::FlushError>>,
}

impl<W: AsyncWrite> FlushStep<W> {
    /// The step is one that `poll_flush` can take.
    pub open spec fn valid(self) -> bool {
        self.from.flush_step(&self.to, self.result)
    }
}

/// Where each write of a run offered all of `src` that was not yet
/// placed, and none offered nothing, the first offered all of `src`, which
/// is then not empty.
pub proof fn lemma_first_write_offers_all<W: AsyncWrite>(t: Seq<WriteStep<W>>, src: Seq<u8>)
    requires
        offered_unwritten(t, src),
        offered_some(t),
        t.len() > 0,
    ensures
        t[0].offered == src,
        src.len() > 0,
    decreases t.len(),
{
    if t.len() > 1 {
        lemma_first_write_offers_all(t.drop_last(), src);
    }
}

} // verus!
