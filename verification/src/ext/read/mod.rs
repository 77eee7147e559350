//! Operations on a readable source.

use bytes::BytesMut;
use vstd::prelude::*;
use vstd::utf8::encode_utf8;
use crate::read::AsyncRead;

pub mod chain;
pub mod read;
pub mod read_buf;
pub mod read_exact;
pub mod read_to_end;
pub mod read_to_string;
pub mod take;

pub use self::chain::{Chain, ChainError};
pub use self::read::Read;
pub use self::read_buf::ReadBuf;
pub use self::read_exact::{ReadExact, ReadExactError};
pub use self::read_to_end::ReadToEnd;
pub use self::read_to_string::{ReadToString, ReadToStringError};
pub use self::take::Take;

verus! {

/// The operations that every source offers.
pub trait AsyncReadExt: AsyncRead + Sized {
    /// This source, followed by `next`.
    fn chain<R: AsyncRead>(self, next: R) -> (c: Chain<Self, R>)
        ensures
            c.first() == self,
            c.second() == next,
            !c.done_first(),
    {
        self::chain::chain(self, next)
    }

    /// One read into `buf`.
    fn read<'a>(&'a mut self, buf: &'a mut [u8]) -> (op: Read<'a, Self>)
        ensures
            *op.reader == *old(self),
            op.buf@ == old(buf)@,
            *final(op.reader) == *final(self),
            final(op.buf)@ == final(buf)@,
    {
        self::read::read(self, buf)
    }

    /// One read that appends to `buf`.
    fn read_buf<'a>(&'a mut self, buf: &'a mut BytesMut) -> (op: ReadBuf<'a, Self>)
        ensures
            *op.reader == *old(self),
            *op.buf == *old(buf),
            *final(op.reader) == *final(self),
            *final(op.buf) == *final(buf),
    {
        self::read_buf::read_buf(self, buf)
    }

    /// Reads until `buf` is full.
    fn read_exact<'a>(&'a mut self, buf: &'a mut [u8]) -> (op: ReadExact<'a, Self>)
        ensures
            op.wf(),
            op.pos == 0,
            *op.reader == *old(self),
            op.buf@ == old(buf)@,
            *final(op.reader) == *final(self),
            final(op.buf)@ == final(buf)@,
    {
        self::read_exact::read_exact(self, buf)
    }

    /// Reads to the end of the source and appends to `buf`.
    fn read_to_end<'a>(&'a mut self, buf: &'a mut Vec<u8>) -> (op: ReadToEnd<'a, Self>)
        ensures
            op.wf(),
            op.start_len == old(buf)@.len(),
            *op.reader == *old(self),
            op.buf@ == old(buf)@,
            *final(op.reader) == *final(self),
            final(op.buf)@ == final(buf)@,
    {
        self::read_to_end::read_to_end(self, buf)
    }

    /// Reads to the end of the source and appends to `dst` as text.
    fn read_to_string<'a>(&'a mut self, dst: &'a mut String) -> (op: ReadToString<'a, Self>)
        ensures
            op.wf(),
            op.start_len == encode_utf8(old(dst)@).len(),
            op.bytes@ == encode_utf8(old(dst)@),
            op.buf@ == Seq::<char>::empty(),
            *op.reader == *old(self),
            *final(op.reader) == *final(self),
            *final(op.buf) == *final(dst),
    {
        self::read_to_string::read_to_string(self, dst)
    }

    /// This source, capped at `limit` bytes.
    fn take(self, limit: u64) -> (t: Take<Self>)
        ensures
            t.inner() == self,
            t.budget() == limit,
    {
        self::take::take(self, limit)
    }
}

impl<R: AsyncRead> AsyncReadExt for R {

}

} // verus!
