//! Point-free endings: wrap a value in `Ok` or `Err` at the end of a chain.

use vstd::prelude::*;

verus! {

/// Ends a chain with success.
pub trait PFOk<E>: Sized {
    /// `Ok(self)`.
    fn ok(self) -> (r: Result<Self, E>)
        ensures
            r == Ok::<Self, E>(self),
    {
        Ok(self)
    }
}

impl<E, T> PFOk<E> for T {

}

/// Ends a chain with failure.
pub trait PFErr<T>: Sized {
    /// `Err(self)`.
    fn err(self) -> (r: Result<T, Self>)
        ensures
            r == Err::<T, Self>(self),
    {
        Err(self)
    }
}

impl<T, E> PFErr<T> for E {

}

} // verus!
