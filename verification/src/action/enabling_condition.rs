//! The predicate that gates the dispatch of an action.

use crate::timestamp::Timestamp;
use vstd::prelude::*;

verus! {

/// The condition on which an action may be dispatched. Every type of action
/// states its condition, for each type of state that it is dispatched
/// against; one that is always enabled states `true`.
pub trait EnablingCondition<State> {
    /// Whether the action may be dispatched in the given state at the given
    /// time.
    spec fn enabled(&self, state: &State, time: Timestamp) -> bool;

    /// Enabling condition for the action.
    ///
    /// Checks if the given action is enabled for a given state and timestamp.
    /// The check reads its arguments and changes nothing.
    fn is_enabled(&self, state: &State, time: Timestamp) -> (b: bool)
        ensures
            b == self.enabled(state, time),
    ;
}

} // verus!
