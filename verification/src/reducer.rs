//! The function that computes the next state.

use crate::action::action_with_meta::ActionWithMeta;
use crate::action::enabling_condition::EnablingCondition;
use crate::dispatcher::Dispatcher;
use vstd::prelude::*;

verus! {

/// A reducer: it updates the state for an action, and may put actions that
/// follow from it into the queue that it is handed. It sees nothing of the
/// store but the state, so it can neither dispatch nor reach the service.
pub trait Reducer<State, Action> where Action: EnablingCondition<State> {
    /// What the reducer may do: whether, for `action` in the state `before`,
    /// it may leave the state `after` and the actions `enqueued` in its
    /// queue. A reducer that states nothing may do anything.
    open spec fn reduces(
        &self,
        before: State,
        action: ActionWithMeta<Action>,
        after: State,
        enqueued: Seq<Action>,
    ) -> bool {
        true
    }

    /// Updates `state` for `action`. The queue is empty when the reducer gets
    /// it; what the reducer leaves in it is dispatched, in order, once the
    /// effects of `action` have run.
    fn reduce(
        &self,
        state: &mut State,
        action: &ActionWithMeta<Action>,
        dispatcher: &mut Dispatcher<Action, State>,
    )
        requires
            old(dispatcher)@.len() == 0,
        ensures
            self.reduces(*old(state), *action, *final(state), final(dispatcher)@),
    ;
}

} // verus!
