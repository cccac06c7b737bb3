//! A store seen as the store of a part of its state.

use crate::action::enabling_condition::EnablingCondition;
use vstd::prelude::*;

verus! {

/// Useful when state machine is split into multiple crates. Using this
/// trait we can pass the store of the global state and the global actions
/// almost as if it were a store of `SubState` and `SubAction`.
pub trait SubStore<GlobalState, SubState> {
    type SubAction;

    type Service;

    /// The part of the state that this view of the store shows.
    spec fn sub_state(&self) -> &SubState;

    fn state(&self) -> (state: &SubState)
        ensures
            state == self.sub_state(),
    ;

    fn service(&mut self) -> &mut Self::Service;

    fn state_and_service(&mut self) -> (&SubState, &mut Self::Service);

    fn dispatch<A>(&mut self, action: A) -> bool where
        A: Into<Self::SubAction> + EnablingCondition<SubState>,
    ;
}

} // verus!
