//! One of two egresses.

use vstd::prelude::*;

verus! {

/// The one or the other of two egresses.
#[derive(Debug, Clone, PartialEq, Eq)]
pub enum EitherOutbound<A, B> {
    Left(A),
    Right(B),
}

impl<A, B> EitherOutbound<A, B> {
    pub fn is_left(&self) -> (yes: bool)
        ensures
            yes == (self is Left),
    {
        match self {
            EitherOutbound::Left(_) => true,
            EitherOutbound::Right(_) => false,
        }
    }
}

} // verus!
