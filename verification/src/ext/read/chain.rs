//! Two sources, one after the other.

use core::task::{Context, Poll};
use vstd::prelude::*;
use crate::read::AsyncRead;
use crate::task::{moved, nothing};

verus! {

/// A source that yields all of `first` and then all of `second`.
/// `done_first` is set once `first` has reported its end; from then on
/// `first` is never polled again.
#[derive(Debug)]
#[must_use]
pub struct Chain<T, U> {
    first: T,
    second: U,
    done_first: bool,
}

/// An error of a chain, tagged with the side it came from.
#[derive(Debug)]
pub enum ChainError<T, U> {
    Left(T),
    Right(U),
}

/// The chain of `first` and `second`, of which nothing has been read yet.
pub fn chain<T: AsyncRead, U: AsyncRead>(first: T, second: U) -> (c: Chain<T, U>)
    ensures
        c.first() == first,
        c.second() == second,
        !c.done_first(),
{
    Chain { first, second, done_first: false }
}

/// The answer of the first source, as the chain passes it on.
pub open spec fn from_left<A, B>(r: Poll<Result<usize, A>>) -> Poll<
    Result<usize, ChainError<A, B>>,
> {
    match r {
        Poll::Ready(Ok(n)) => Poll::Ready(Ok(n)),
        Poll::Ready(Err(e)) => Poll::Ready(Err(ChainError::Left(e))),
        Poll::Pending => Poll::Pending,
    }
}

/// The answer of the second source, as the chain passes it on.
pub open spec fn from_right<A, B>(r: Poll<Result<usize, B>>) -> Poll<
    Result<usize, ChainError<A, B>>,
> {
    match r {
        Poll::Ready(Ok(n)) => Poll::Ready(Ok(n)),
        Poll::Ready(Err(e)) => Poll::Ready(Err(ChainError::Right(e))),
        Poll::Pending => Poll::Pending,
    }
}

impl<T: AsyncRead, U: AsyncRead> Chain<T, U> {
    /// The source that is read first.
    pub closed spec fn first(&self) -> T {
        self.first
    }

    /// The source that is read once the first has ended.
    pub closed spec fn second(&self) -> U {
        self.second
    }

    /// The first source has reported its end.
    pub closed spec fn done_first(&self) -> bool {
        self.done_first
    }

    /// The two sources.
    pub fn get_ref(&self) -> (r: (&T, &U))
        ensures
            *r.0 == self.first(),
            *r.1 == self.second(),
    {
        (&self.first, &self.second)
    }

    /// The two sources, for use in place. The chain does not notice what is
    /// read from them directly.
    pub fn get_mut(&mut self) -> (r: (&mut T, &mut U))
        ensures
            *r.0 == old(self).first(),
            *r.1 == old(self).second(),
            final(self).first() == *final(r.0),
            final(self).second() == *final(r.1),
            final(self).done_first() == old(self).done_first(),
    {
        (&mut self.first, &mut self.second)
    }

    /// The two sources, for polling them directly. Streams are addressed
    /// by plain exclusive references throughout, so this is `get_mut` under
    /// the name that callers holding a stream in place look for.
    pub fn get_pin_mut(&mut self) -> (r: (&mut T, &mut U))
        ensures
            *r.0 == old(self).first(),
            *r.1 == old(self).second(),
            final(self).first() == *final(r.0),
            final(self).second() == *final(r.1),
            final(self).done_first() == old(self).done_first(),
    {
        (&mut self.first, &mut self.second)
    }

    /// Gives the two sources back.
    pub fn into_inner(self) -> (r: (T, U))
        ensures
            r.0 == self.first(),
            r.1 == self.second(),
    {
        (self.first, self.second)
    }
}

impl<T: AsyncRead, U: AsyncRead> AsyncRead for Chain<T, U> {
    type Error = ChainError<T::Error, U::Error>;

    /// While the first source has not ended, it alone is polled, unless it
    /// reports its end: then the second is polled in the same step. Once
    /// the first has ended it stays as it is, and the second alone is
    /// polled. Every poll is offered the whole buffer.
    open spec fn read_step(
        &self,
        next: &Self,
        cap: nat,
        r: Poll<Result<usize, ChainError<T::Error, U::Error>>>,
        data: Seq<u8>,
    ) -> bool {
        if self.done_first() {
            &&& next.done_first()
            &&& next.first() == self.first()
            &&& exists|rb: Poll<Result<usize, U::Error>>|
                {
                    &&& r == from_right::<T::Error, U::Error>(rb)
                    &&& #[trigger] self.second().read_step(&next.second(), cap, rb, data)
                }
        } else if next.done_first() {
            &&& cap > 0
            &&& self.first().read_step(
                &next.first(),
                cap,
                Poll::Ready(Ok(0usize)),
                Seq::<u8>::empty(),
            )
            &&& exists|rb: Poll<Result<usize, U::Error>>|
                {
                    &&& r == from_right::<T::Error, U::Error>(rb)
                    &&& #[trigger] self.second().read_step(&next.second(), cap, rb, data)
                }
        } else {
            &&& next.second() == self.second()
            &&& nothing(r) ==> cap == 0
            &&& exists|ra: Poll<Result<usize, T::Error>>|
                {
                    &&& r == from_left::<T::Error, U::Error>(ra)
                    &&& #[trigger] self.first().read_step(&next.first(), cap, ra, data)
                }
        }
    }

    open spec fn keeps_rest() -> bool {
        T::keeps_rest() && U::keeps_rest()
    }

    fn poll_read(&mut self, cx: &mut Context<'_>, buf: &mut [u8]) -> (r: Poll<
        Result<usize, ChainError<T::Error, U::Error>>,
    >)
        ensures
            old(self).done_first() ==> final(self).done_first() && final(self).first() == old(
                self,
            ).first(),
            !final(self).done_first() ==> final(self).second() == old(self).second(),
    {
        assert(Self::keeps_rest() == (T::keeps_rest() && U::keeps_rest()));
        if !self.done_first {
            let ra = self.first.poll_read(cx, buf);
            let ghost ga = ra;
            let out = match ra {
                Poll::Ready(Ok(n)) => {
                    if n == 0 && !buf.is_empty() {
                        assert(buf@.take(0) =~= Seq::<u8>::empty());
                        self.done_first = true;
                        None
                    } else {
                        Some(Poll::Ready(Ok(n)))
                    }
                },
                Poll::Ready(Err(e)) => Some(Poll::Ready(Err(ChainError::Left(e)))),
                Poll::Pending => Some(Poll::Pending),
            };
            if let Some(r) = out {
                assert(old(self).first().read_step(
                    &self.first(),
                    old(buf)@.len(),
                    ga,
                    buf@.take(moved(r) as int),
                ));
                return r;
            }
        }
        let ghost between = buf@;
        assert(T::keeps_rest() && !old(self).done_first() ==> between =~= old(buf)@.skip(0));
        let rb = self.second.poll_read(cx, buf);
        let ghost gb = rb;
        let r = match rb {
            Poll::Ready(Ok(n)) => Poll::Ready(Ok(n)),
            Poll::Ready(Err(e)) => Poll::Ready(Err(ChainError::Right(e))),
            Poll::Pending => Poll::Pending,
        };
        assert(old(self).second().read_step(
            &self.second(),
            old(buf)@.len(),
            gb,
            buf@.take(moved(r) as int),
        ));
        r
    }
}

} // verus!
