//! One of two streams.

use vstd::prelude::*;

verus! {

/// The one or the other of two streams.
#[derive(Debug, Clone, PartialEq, Eq)]
pub enum EitherStream<L, R> {
    Left(L),
    Right(R),
}

impl<L, R> EitherStream<L, R> {
    pub fn is_left(&self) -> (yes: bool)
        ensures
            yes == (self is Left),
    {
        match self {
            EitherStream::Left(_) => true,
            EitherStream::Right(_) => false,
        }
    }
}

} // verus!
