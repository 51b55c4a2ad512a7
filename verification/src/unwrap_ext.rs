//! A small extension trait for taking a reference to the value a container
//! is known to hold.

use vstd::prelude::*;

verus! {

/// Borrow the held value of a container that provably holds one.
pub trait ExpectExt {
    type Output;

    /// Whether the container holds a value to borrow.
    spec fn can_unwrap(&self) -> bool;

    /// The value it holds.
    spec fn unwrapped(&self) -> Self::Output;

    /// Borrow the held value; `msg` names the caller's expectation.
    fn expect_ref(&self, msg: &str) -> (r: &Self::Output)
        requires
            self.can_unwrap(),
        ensures
            *r == self.unwrapped(),
    ;

    /// Borrow the held value with a stock expectation message.
    fn unwrap_ref(&self) -> (r: &Self::Output)
        requires
            self.can_unwrap(),
        ensures
            *r == self.unwrapped(),
    {
        self.expect_ref("unwrap failed")
    }
}

impl<T> ExpectExt for Option<T> {
    type Output = T;

    open spec fn can_unwrap(&self) -> bool {
        self is Some
    }

    open spec fn unwrapped(&self) -> T {
        self->0
    }

    fn expect_ref(&self, msg: &str) -> (r: &T) {
        match self {
            Some(x) => x,
            None => vstd::pervasive::unreached(),
        }
    }
}

} // verus!
