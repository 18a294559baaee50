//! The result of advancing a suspendable computation by one step.

use vstd::prelude::*;

verus! {

/// What one step of a suspendable computation reports: either its final
/// value, or that it is still waiting.
#[derive(Debug, PartialEq, Eq, Structural)]
pub enum Poll<T> {
    /// The computation finished with this value.
    Ready(T),
    /// The computation is still waiting for something.
    Pending,
}

impl<T> Poll<T> {
    /// Whether the step finished the computation.
    pub fn is_ready(&self) -> (r: bool)
        ensures
            r == (self is Ready),
    {
        match self {
            Poll::Ready(_) => true,
            Poll::Pending => false,
        }
    }

    /// Whether the computation is still waiting.
    pub fn is_pending(&self) -> (r: bool)
        ensures
            r == (self is Pending),
    {
        match self {
            Poll::Ready(_) => false,
            Poll::Pending => true,
        }
    }
}

} // verus!
