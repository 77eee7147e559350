//! The readable byte source.

use core::task::{Context, Poll};
use bytes::BytesMut;
use vstd::prelude::*;
use vstd::slice::slice_subrange;
use crate::buf::{filled, filled_len, has_room, put_slice, spare_len, GROWTH};
use crate::task::{moved, nothing, prefix};

verus! {

/// A source of bytes that is polled for progress.
///
/// `poll_read` attempts to fill a prefix of `buf`. `Ready(Ok(n))` says that
/// the first `n` bytes of `buf` now hold fresh data; `n == 0` with a
/// non-empty `buf` signals the end of the stream. `Pending` says that no
/// data is available yet and that the task will be woken through `cx`.
pub trait AsyncRead {
    type Error;

    /// The transition relation of the source: polled in state `self` with a
    /// buffer of `cap` bytes, it may answer `r`, hand out `data` and go on
    /// in state `next`. A source that does not say how it behaves allows
    /// every step.
    open spec fn read_step(
        &self,
        next: &Self,
        cap: nat,
        r: Poll<Result<usize, Self::Error>>,
        data: Seq<u8>,
    ) -> bool {
        true
    }

    /// Whether sources of this type leave the buffer alone beyond the
    /// bytes they hand out. A source that does not say so may write
    /// anywhere in the buffer it is offered.
    open spec fn keeps_rest() -> bool {
        false
    }

    /// Attempts to read into `buf`. No more bytes are reported than `buf`
    /// holds, the step is one that the source allows, and a source that
    /// keeps the rest leaves the buffer as it was beyond what it handed
    /// out.
    fn poll_read(&mut self, cx: &mut Context<'_>, buf: &mut [u8]) -> (r: Poll<
        Result<usize, Self::Error>,
    >)
        ensures
            final(buf)@.len() == old(buf)@.len(),
            moved(r) <= old(buf)@.len(),
            (*old(self)).read_step(&*final(self), old(buf)@.len(), r, prefix(final(buf)@, r)),
            Self::keeps_rest() ==> final(buf)@.skip(moved(r) as int) == old(buf)@.skip(
                moved(r) as int,
            ),
    ;

    /// Reads once into the spare room of `buf` and appends what was read.
    /// A buffer that cannot grow is answered with zero, and the source is
    /// not polled. The bytes of `buf` change only when the poll has
    /// succeeded.
    ///
    /// The source reads into zeroed scratch memory of the size of the spare
    /// room; where `buf` is within `GROWTH` bytes of the largest size there
    /// is, the spare room is not asked for and one byte is read.
    fn poll_read_buf(&mut self, cx: &mut Context<'_>, buf: &mut BytesMut) -> (r: Poll<
        Result<usize, Self::Error>,
    >) where Self: Sized
        ensures
            filled(*old(buf)).len() >= usize::MAX ==> {
                &&& nothing(r)
                &&& *final(self) == *old(self)
                &&& filled(*final(buf)) == filled(*old(buf))
            },
            filled(*old(buf)).len() < usize::MAX ==> exists|cap: nat, data: Seq<u8>|
                {
                    &&& 1 <= cap
                    &&& filled(*old(buf)).len() + cap <= usize::MAX
                    &&& #[trigger] (*old(self)).read_step(&*final(self), cap, r, data)
                    &&& data.len() == moved(r)
                    &&& filled(*final(buf)) == filled(*old(buf)) + data
                },
    {
        if !has_room(buf) {
            return Poll::Ready(Ok(0));
        }
        let n: usize = if filled_len(buf) <= usize::MAX - GROWTH {
            spare_len(buf)
        } else {
            1
        };
        let mut scratch: Vec<u8> = vec![0u8; n];
        let r = self.poll_read(cx, scratch.as_mut_slice());
        match r {
            Poll::Ready(Ok(k)) => {
                put_slice(buf, slice_subrange(scratch.as_slice(), 0, k));
                Poll::Ready(Ok(k))
            },
            Poll::Ready(Err(e)) => Poll::Ready(Err(e)),
            Poll::Pending => Poll::Pending,
        }
    }
}

/// What `poll_read_buf` does: on a buffer that holds `usize::MAX` bytes it
/// answers zero and leaves the source alone; else it polls the source once,
/// with room for at least one byte, and appends what the poll handed out.
pub open spec fn read_buf_step<R: AsyncRead>(
    a0: R,
    a1: R,
    held0: Seq<u8>,
    held1: Seq<u8>,
    r: Poll<Result<usize, R::Error>>,
) -> bool {
    if held0.len() >= usize::MAX {
        &&& nothing(r)
        &&& a1 == a0
        &&& held1 == held0
    } else {
        exists|cap: nat, data: Seq<u8>|
            {
                &&& 1 <= cap
                &&& held0.len() + cap <= usize::MAX
                &&& #[trigger] a0.read_step(&a1, cap, r, data)
                &&& data.len() == moved(r)
                &&& held1 == held0 + data
            }
    }
}

/// `void::Void`: the error of a stream that cannot fail. It has no values.
#[verifier::external_type_specification]
#[verifier::external_body]
pub struct ExVoid(void::Void);

/// Calls `genio::Read::read` on a byte slice. As genio's source shows, it
/// copies the first `min(buf.len(), src.len())` bytes of `src` to the front
/// of `buf`, leaves the rest of `buf` alone, drops the copied bytes from the
/// front of `src` and reports their number; it never fails.
#[verifier::external_body]
fn slice_read(src: &mut &[u8], buf: &mut [u8]) -> (r: Result<usize, void::Void>)
    ensures
        r matches Ok(n) && n == vstd::math::min(old(buf)@.len() as int, old(src)@.len() as int),
        final(buf)@ == old(src)@.take(r->Ok_0 as int) + old(buf)@.skip(r->Ok_0 as int),
        final(src)@ == old(src)@.skip(r->Ok_0 as int),
{
    genio::Read::read(src, buf)
}

impl<'a> AsyncRead for &'a [u8] {
    type Error = void::Void;

    open spec fn read_step(
        &self,
        next: &Self,
        cap: nat,
        r: Poll<Result<usize, void::Void>>,
        data: Seq<u8>,
    ) -> bool {
        &&& r matches Poll::Ready(Ok(n))
        &&& n == vstd::math::min(cap as int, self@.len() as int)
        &&& data == self@.take(n as int)
        &&& next@ == self@.skip(n as int)
    }

    open spec fn keeps_rest() -> bool {
        true
    }

    fn poll_read(&mut self, cx: &mut Context<'_>, buf: &mut [u8]) -> (r: Poll<
        Result<usize, void::Void>,
    >)
        ensures
            final(buf)@.skip(moved(r) as int) == old(buf)@.skip(moved(r) as int),
    {
        let r = slice_read(self, buf);
        proof {
            let n = r->Ok_0 as int;
            assert(buf@.take(n) =~= old(self)@.take(n));
        }
        Poll::Ready(r)
    }
}

/// An exclusive reference to a source is a source: every poll goes to the
/// source behind it.
impl<T: AsyncRead> AsyncRead for &mut T {
    type Error = T::Error;

    open spec fn read_step(
        &self,
        next: &Self,
        cap: nat,
        r: Poll<Result<usize, T::Error>>,
        data: Seq<u8>,
    ) -> bool {
        (**self).read_step(&**next, cap, r, data)
    }

    open spec fn keeps_rest() -> bool {
        T::keeps_rest()
    }

    fn poll_read(&mut self, cx: &mut Context<'_>, buf: &mut [u8]) -> (r: Poll<
        Result<usize, T::Error>,
    >) {
        assert(Self::keeps_rest() == T::keeps_rest());
        (**self).poll_read(cx, buf)
    }
}

/// A boxed source is a source: every poll goes to the source in the box.
impl<T: AsyncRead> AsyncRead for Box<T> {
    type Error = T::Error;

    open spec fn read_step(
        &self,
        next: &Self,
        cap: nat,
        r: Poll<Result<usize, T::Error>>,
        data: Seq<u8>,
    ) -> bool {
        (**self).read_step(&**next, cap, r, data)
    }

    open spec fn keeps_rest() -> bool {
        T::keeps_rest()
    }

    fn poll_read(&mut self, cx: &mut Context<'_>, buf: &mut [u8]) -> (r: Poll<
        Result<usize, T::Error>,
    >) {
        assert(Self::keeps_rest() == T::keeps_rest());
        (**self).poll_read(cx, buf)
    }
}

} // verus!
