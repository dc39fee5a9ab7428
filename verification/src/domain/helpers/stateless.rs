//! The state of a decision that reads no state.

use vstd::prelude::*;

use crate::domain::streams::EmptyStream;

verus! {

/// A state query that never finds any state: it reads the stream to which
/// no domain event belongs. It serves commands that take in a fact from
/// outside and need no validation.
#[derive(Clone, Copy, Debug, PartialEq, Eq, Structural)]
pub struct Stateless;

impl Stateless {
    /// Folds one event into the state, which has nothing to change.
    pub fn mutate(&mut self, event: EmptyStream)
        ensures
            *final(self) == *old(self),
    {
    }
}

} // verus!
