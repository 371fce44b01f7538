//! The result of an operation that yields nothing but may fail.

use vstd::prelude::*;

verus! {

/// Success, or failure for a reason.
#[derive(Clone, Copy, PartialEq, PartialOrd, Eq, Ord, Debug, Hash)]
pub enum OpRes<E> {
    Success,
    Failure(E),
}

impl<E> OpRes<E> {
    /// Whether the operation succeeded.
    pub fn is_success(&self) -> (b: bool)
        ensures
            b == (*self is Success),
    {
        match *self {
            OpRes::Success => true,
            OpRes::Failure(_) => false,
        }
    }

    /// Whether the operation failed.
    pub fn is_failure(&self) -> (b: bool)
        ensures
            b == (*self is Failure),
    {
        !self.is_success()
    }

    /// The reason of a failure.
    pub fn unwrap_failure(self) -> (e: E)
        requires
            self is Failure,
        ensures
            self == OpRes::Failure(e),
    {
        match self {
            OpRes::Success => unreached(),
            OpRes::Failure(e) => e,
        }
    }

    /// The same as a `Result`.
    pub fn into_result(self) -> (r: Result<(), E>)
        ensures
            match self {
                OpRes::Success => r == Ok::<(), E>(()),
                OpRes::Failure(e) => r == Err::<(), E>(e),
            },
    {
        match self {
            OpRes::Success => Ok(()),
            OpRes::Failure(e) => Err(e),
        }
    }

    /// The failure for the reason `v`.
    pub fn from_error(v: E) -> (r: Self)
        ensures
            r == OpRes::Failure(v),
    {
        OpRes::Failure(v)
    }

    /// The success.
    pub fn from_ok(_v: ()) -> (r: Self)
        ensures
            r == OpRes::<E>::Success,
    {
        OpRes::Success
    }
}

} // verus!
