//! A stream made of a source and a sink, and taking one apart.

use core::task::{Context, Poll};
use vstd::prelude::*;
use crate::read::AsyncRead;
use crate::write::AsyncWrite;

verus! {

/// A stream that can be parted into the half that reads and the half that
/// writes.
pub trait Split: AsyncRead + AsyncWrite {
    type ReadHalf: AsyncRead;

    type WriteHalf: AsyncWrite;

    /// Parts the stream into its two halves.
    fn split(self) -> (Self::ReadHalf, Self::WriteHalf);
}

/// A source and a sink held together as one stream: reads go to the one,
/// writes, flushes and closes to the other.
pub struct Join<T: AsyncRead, U: AsyncWrite> {
    read: T,
    write: U,
}

impl<T: AsyncRead, U: AsyncWrite> Join<T, U> {
    /// The half that reads.
    pub closed spec fn reader(&self) -> T {
        self.read
    }

    /// The half that writes.
    pub closed spec fn writer(&self) -> U {
        self.write
    }

    /// Holds `read` and `write` together.
    pub fn new(read: T, write: U) -> (j: Self)
        ensures
            j.reader() == read,
            j.writer() == write,
    {
        Join { read, write }
    }
}

impl<T: AsyncRead, U: AsyncWrite> AsyncRead for Join<T, U> {
    type Error = T::Error;

    open spec fn read_step(
        &self,
        next: &Self,
        cap: nat,
        r: Poll<Result<usize, T::Error>>,
        data: Seq<u8>,
    ) -> bool {
        &&& self.reader().read_step(&next.reader(), cap, r, data)
        &&& next.writer() == self.writer()
    }

    open spec fn keeps_rest() -> bool {
        T::keeps_rest()
    }

    fn poll_read(&mut self, cx: &mut Context<'_>, buf: &mut [u8]) -> (r: Poll<
        Result<usize, T::Error>,
    >) {
        assert(Self::keeps_rest() == T::keeps_rest());
        self.read.poll_read(cx, buf)
    }
}

impl<T: AsyncRead, U: AsyncWrite> AsyncWrite for Join<T, U> {
    type WriteError = U::WriteError;

    type FlushError = U::FlushError;

    type CloseError = U::CloseError;

    open spec fn write_step(
        &self,
        next: &Self,
        offered: Seq<u8>,
        r: Poll<Result<usize, U::WriteError>>,
    ) -> bool {
        &&& self.writer().write_step(&next.writer(), offered, r)
        &&& next.reader() == self.reader()
    }

    open spec fn flush_step(&self, next: &Self, r: Poll<Result<(), U::FlushError>>) -> bool {
        &&& self.writer().flush_step(&next.writer(), r)
        &&& next.reader() == self.reader()
    }

    open spec fn close_step(&self, next: &Self, r: Poll<Result<(), U::CloseError>>) -> bool {
        &&& self.writer().close_step(&next.writer(), r)
        &&& next.reader() == self.reader()
    }

    fn poll_write(&mut self, cx: &mut Context<'_>, buf: &[u8]) -> (r: Poll<
        Result<usize, U::WriteError>,
    >) {
        self.write.poll_write(cx, buf)
    }

    fn poll_flush(&mut self, cx: &mut Context<'_>) -> (r: Poll<Result<(), U::FlushError>>) {
        self.write.poll_flush(cx)
    }

    fn poll_close(&mut self, cx: &mut Context<'_>) -> (r: Poll<Result<(), U::CloseError>>) {
        self.write.poll_close(cx)
    }
}

impl<T: AsyncRead, U: AsyncWrite> Split for Join<T, U> {
    type ReadHalf = T;

    type WriteHalf = U;

    fn split(self) -> (r: (T, U))
        ensures
            r.0 == self.reader(),
            r.1 == self.writer(),
    {
        (self.read, self.write)
    }
}

} // verus!
