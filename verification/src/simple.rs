//! The three streams that need no resource behind them.

use core::task::{Context, Poll};
use vstd::prelude::*;
use crate::read::AsyncRead;
use crate::write::AsyncWrite;

verus! {

/// A source that is at its end from the start.
#[derive(Debug)]
pub struct Empty;

impl AsyncRead for Empty {
    type Error = void::Void;

    open spec fn read_step(
        &self,
        next: &Self,
        cap: nat,
        r: Poll<Result<usize, void::Void>>,
        data: Seq<u8>,
    ) -> bool {
        &&& r matches Poll::Ready(Ok(n))
        &&& n == 0
        &&& data == Seq::<u8>::empty()
    }

    open spec fn keeps_rest() -> bool {
        true
    }

    fn poll_read(&mut self, cx: &mut Context<'_>, buf: &mut [u8]) -> (r: Poll<
        Result<usize, void::Void>,
    >)
        ensures
            final(buf)@ == old(buf)@,
    {
        assert(buf@.take(0) =~= Seq::<u8>::empty());
        Poll::Ready(Ok(0))
    }
}

/// A sink that takes every byte it is offered and keeps none.
#[derive(Debug)]
pub struct Sink;

impl AsyncWrite for Sink {
    type WriteError = void::Void;

    type FlushError = void::Void;

    type CloseError = void::Void;

    open spec fn write_step(
        &self,
        next: &Self,
        offered: Seq<u8>,
        r: Poll<Result<usize, void::Void>>,
    ) -> bool {
        &&& r matches Poll::Ready(Ok(n))
        &&& n == offered.len()
    }

    open spec fn flush_step(&self, next: &Self, r: Poll<Result<(), void::Void>>) -> bool {
        r matches Poll::Ready(Ok(_))
    }

    open spec fn close_step(&self, next: &Self, r: Poll<Result<(), void::Void>>) -> bool {
        r matches Poll::Ready(Ok(_))
    }

    fn poll_write(&mut self, cx: &mut Context<'_>, buf: &[u8]) -> (r: Poll<
        Result<usize, void::Void>,
    >) {
        Poll::Ready(Ok(buf.len()))
    }

    fn poll_flush(&mut self, cx: &mut Context<'_>) -> (r: Poll<Result<(), void::Void>>) {
        Poll::Ready(Ok(()))
    }

    fn poll_close(&mut self, cx: &mut Context<'_>) -> (r: Poll<Result<(), void::Void>>) {
        Poll::Ready(Ok(()))
    }
}

/// A source that never ends: every read fills the whole buffer with one
/// byte.
#[derive(Debug)]
pub struct Repeat(u8);

impl Repeat {
    /// The byte that every read yields.
    pub closed spec fn byte(&self) -> u8 {
        self.0
    }

    /// A source of `item`, over and over.
    pub fn new(item: u8) -> (r: Self)
        ensures
            r.byte() == item,
    {
        Repeat(item)
    }
}

impl AsyncRead for Repeat {
    type Error = void::Void;

    open spec fn read_step(
        &self,
        next: &Self,
        cap: nat,
        r: Poll<Result<usize, void::Void>>,
        data: Seq<u8>,
    ) -> bool {
        &&& r matches Poll::Ready(Ok(n))
        &&& n == cap
        &&& data == Seq::new(cap, |i: int| self.byte())
        &&& next.byte() == self.byte()
    }

    open spec fn keeps_rest() -> bool {
        true
    }

    fn poll_read(&mut self, cx: &mut Context<'_>, buf: &mut [u8]) -> (r: Poll<
        Result<usize, void::Void>,
    >) {
        let len: usize = buf.len();
        let mut i: usize = 0;
        while i < len
            invariant
                i <= len,
                buf@.len() == len,
                forall|j: int| 0 <= j < i ==> buf@[j] == self.0,
            decreases len - i,
        {
            buf[i] = self.0;
            i += 1;
        }
        assert(buf@.take(len as int) =~= Seq::new(len as nat, |i: int| self.byte()));
        Poll::Ready(Ok(len))
    }
}

} // verus!
