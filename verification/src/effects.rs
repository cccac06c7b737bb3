//! The function that performs the side effects of an action.

use crate::action::action_with_meta::ActionWithMeta;
use crate::action::enabling_condition::EnablingCondition;
use crate::reducer::Reducer;
use crate::service::TimeService;
use crate::history::direct_run;
use crate::store::Store;
use vstd::prelude::*;

verus! {

/// The effects of actions: they run once the reducer has updated the state
/// for an action, may use the service, and may dispatch further actions.
pub trait Effects<State, Service, Action, R>: Sized + Copy where
    Service: TimeService,
    Action: EnablingCondition<State>,
    R: Reducer<State, Action>,
 {
    /// Performs the effects of `action`.
    ///
    /// The store is handed over as it stands right after the reducer ran for
    /// `action`: the action is the last one on record, its id is the last
    /// one assigned, and the store is one level deeper than the action. The
    /// actions that the reducer queued wait at the front of the pending
    /// actions, before all that were pending already.
    ///
    /// The effects use the store through its public functions only. Whatever
    /// they dispatch is then on record behind what was there, at the store's
    /// depth or deeper, and nothing else of the store's bookkeeping has
    /// changed.
    fn effects(&self, store: &mut Store<State, Service, Action, R, Self>, action: ActionWithMeta<Action>)
        requires
            old(store).wf(),
            old(store).history().len() > 0,
            old(store).history().last().meta == action.meta(),
            old(store).history().last().action == action.action(),
            old(store).last_action_id()@ == action.meta()@.id,
            old(store).depth() == action.meta()@.depth + 1,
            old(store).history().last().enqueued.len() <= old(store).pending().len(),
            old(store).pending().take(old(store).history().last().enqueued.len() as int) == old(
                store,
            ).history().last().enqueued,
        ensures
            final(store).wf(),
            final(store).follows(*old(store)),
            direct_run(
                final(store).history(),
                old(store).history().len() as int,
                old(store).depth(),
            ),
    ;
}

} // verus!
