//! Operations on a writable sink.

use bytes::Bytes;
use vstd::prelude::*;
use crate::write::AsyncWrite;

pub mod close;
pub mod flush;
pub mod shutdown;
pub mod write;
pub mod write_all;
pub mod write_buf;

pub use self::close::Close;
pub use self::flush::Flush;
pub use self::shutdown::Shutdown;
pub use self::write::Write;
pub use self::write_all::{WriteAll, WriteAllError};
pub use self::write_buf::WriteBuf;

verus! {

/// The operations that every sink offers.
pub trait AsyncWriteExt: AsyncWrite + Sized {
    /// One write of `src`.
    fn write<'a>(&'a mut self, src: &'a [u8]) -> (op: Write<'a, Self>)
        ensures
            *op.writer == *old(self),
            *final(op.writer) == *final(self),
            op.buf@ == src@,
    {
        self::write::write(self, src)
    }

    /// One write of what `src` has left.
    fn write_buf<'a>(&'a mut self, src: &'a mut Bytes) -> (op: WriteBuf<'a, Self>)
        ensures
            *op.writer == *old(self),
            *op.buf == *old(src),
            *final(op.writer) == *final(self),
            *final(op.buf) == *final(src),
    {
        self::write_buf::write_buf(self, src)
    }

    /// Writes until all of `src` is placed.
    fn write_all<'a>(&'a mut self, src: &'a [u8]) -> (op: WriteAll<'a, Self>)
        ensures
            *op.writer == *old(self),
            *final(op.writer) == *final(self),
            op.buf@ == src@,
    {
        self::write_all::write_all(self, src)
    }

    /// One flush.
    fn flush<'a>(&'a mut self) -> (op: Flush<'a, Self>)
        ensures
            *op.a == *old(self),
            *final(op.a) == *final(self),
    {
        self::flush::flush(self)
    }

    /// One close.
    fn close<'a>(&'a mut self) -> (op: Close<'a, Self>)
        ensures
            *op.a == *old(self),
            *final(op.a) == *final(self),
    {
        self::close::close(self)
    }

    /// One shutdown.
    fn shutdown<'a>(&'a mut self) -> (op: Shutdown<'a, Self>)
        ensures
            *op.a == *old(self),
            *final(op.a) == *final(self),
    {
        self::shutdown::shutdown(self)
    }
}

impl<W: AsyncWrite> AsyncWriteExt for W {

}

} // verus!
