//! The wrapper under which a stream of this library is handed to another
//! family of stream traits, or one of theirs to this library.

use vstd::prelude::*;

verus! {

/// A stream, marked for use across two families of stream traits. The
/// wrapper holds the stream and adds no behaviour of its own.
pub struct Compat<T>(T);

impl<T> Compat<T> {
    /// The stream inside.
    pub closed spec fn inner(&self) -> T {
        self.0
    }

    /// Wraps `input`.
    pub fn new(input: T) -> (c: Self)
        ensures
            c.inner() == input,
    {
        Compat(input)
    }

    /// The stream inside.
    pub fn get_ref(&self) -> (r: &T)
        ensures
            *r == self.inner(),
    {
        &self.0
    }

    /// The stream inside, for use in place.
    pub fn get_mut(&mut self) -> (r: &mut T)
        ensures
            *r == old(self).inner(),
            final(self).inner() == *final(r),
    {
        &mut self.0
    }

    /// Gives the stream back.
    pub fn into_inner(self) -> (r: T)
        ensures
            r == self.inner(),
    {
        self.0
    }
}

} // verus!
