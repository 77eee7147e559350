//! The std types every poll passes through: the suspension context with its
//! waker, and the poll result.

use core::task::{Context, Poll, Waker};
use vstd::prelude::*;

verus! {

/// `core::task::Context`: the handle through which a pending operation
/// registers for a later wake-up. Verified code only carries it along.
#[verifier::external_type_specification]
#[verifier::external_body]
pub struct ExContext<'a>(Context<'a>);

/// `core::task::Poll`: either `Ready` with a value or `Pending`.
#[verifier::external_type_specification]
#[verifier::reject_recursive_types(T)]
pub struct ExPoll<T>(Poll<T>);

/// `core::task::Waker`: the handle that schedules a task again. Verified
/// code only carries it along.
#[verifier::external_type_specification]
#[verifier::external_body]
pub struct ExWaker(Waker);

/// Calls `Context::waker`, which returns the waker of the task that is
/// being polled. Nothing is claimed of it.
#[verifier::external_body]
pub(crate) fn waker_of<'a>(cx: &'a Context<'_>) -> &'a Waker {
    cx.waker()
}

/// Calls `Waker::wake_by_ref`, which schedules the task of the waker
/// again. Nothing is claimed of it.
#[verifier::external_body]
pub(crate) fn wake_by_ref(waker: &Waker) {
    waker.wake_by_ref()
}

/// Number of bytes that a read or write result reports: `n` for
/// `Ready(Ok(n))`, zero for an error or `Pending`.
pub open spec fn moved<E>(r: Poll<Result<usize, E>>) -> nat {
    match r {
        Poll::Ready(Ok(n)) => n as nat,
        _ => 0,
    }
}

/// The result reports that not one byte was moved: `Ready(Ok(0))`.
pub open spec fn nothing<E>(r: Poll<Result<usize, E>>) -> bool {
    r matches Poll::Ready(Ok(n)) && n == 0
}

/// The bytes that a poll made available: the first `moved(r)` bytes of the
/// buffer it was handed.
pub open spec fn prefix<E>(buf: Seq<u8>, r: Poll<Result<usize, E>>) -> Seq<u8> {
    buf.take(moved(r) as int)
}

} // verus!
