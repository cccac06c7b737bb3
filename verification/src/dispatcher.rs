//! The queue into which a reducer puts the actions that follow from the one
//! it is processing.

use crate::action::enabling_condition::EnablingCondition;
use crate::callback::{AnyAction, Callback};
use crate::timestamp::Timestamp;
use std::collections::VecDeque;
use std::marker::PhantomData;
use vstd::prelude::*;
use vstd::std_specs::convert::IntoSpec;

verus! {

/// A first-in, first-out queue of actions that wait to be dispatched.
pub struct Dispatcher<Action, State> {
    pub(crate) queue: VecDeque<Action>,
    pub(crate) _marker: PhantomData<State>,
}

impl<Action, State> View for Dispatcher<Action, State> {
    type V = Seq<Action>;

    /// The waiting actions, the next one to be dispatched first.
    open(crate) spec fn view(&self) -> Seq<Action> {
        self.queue@
    }
}

impl<Action, State> Dispatcher<Action, State> where Action: EnablingCondition<State> {
    /// An empty queue.
    pub fn new() -> (dispatcher: Self)
        ensures
            dispatcher@ == Seq::<Action>::empty(),
    {
        Self { queue: VecDeque::new(), _marker: PhantomData }
    }

    /// Puts an action at the back of the queue.
    pub fn push<T>(&mut self, action: T) where T: Into<Action>
        ensures
            final(self)@.len() == old(self)@.len() + 1,
            final(self)@.drop_last() == old(self)@,
            call_ensures(T::into, (action,), final(self)@.last()),
            T::obeys_into_spec() ==> final(self)@ == old(self)@.push(action.into_spec()),
    {
        let action: Action = action.into();
        self.queue.push_back(action);
        assert(self@.drop_last() =~= old(self)@);
    }

    /// Puts an action at the back of the queue if it is enabled for the given
    /// state and time, and says whether it did.
    pub fn push_if_enabled<T>(&mut self, action: T, state: &State, time: Timestamp) -> (pushed:
        bool) where T: Into<Action> + EnablingCondition<State>
        ensures
            pushed == action.enabled(state, time),
            !pushed ==> final(self)@ == old(self)@,
            pushed ==> final(self)@.len() == old(self)@.len() + 1,
            pushed ==> final(self)@.drop_last() == old(self)@,
            pushed ==> call_ensures(T::into, (action,), final(self)@.last()),
            pushed && T::obeys_into_spec() ==> final(self)@ == old(self)@.push(action.into_spec()),
    {
        if action.is_enabled(state, time) {
            let action: Action = action.into();
            self.queue.push_back(action);
            assert(self@.drop_last() =~= old(self)@);
            true
        } else {
            false
        }
    }

    /// Calls the callback on `args` and puts the action that it gives at the
    /// back of the queue.
    pub fn push_callback<T, F>(&mut self, callback: Callback<T, F>, args: T) where
        T: 'static,
        F: Fn(T) -> AnyAction,
        Action: From<AnyAction>,

        requires
            callback.function() is Some,
            call_requires(callback.function()->0, (args,)),
        ensures
            final(self)@.len() == old(self)@.len() + 1,
            final(self)@.drop_last() == old(self)@,
            exists|any: AnyAction|
                call_ensures(callback.function()->0, (args,), any) && call_ensures(
                    Action::from,
                    (any,),
                    final(self)@.last(),
                ),
    {
        let action: Action = callback.call(args);
        self.queue.push_back(action);
        assert(self@.drop_last() =~= old(self)@);
    }

    /// Takes the action at the front of the queue, if there is one.
    pub fn pop(&mut self) -> (action: Option<Action>)
        ensures
            action is Some <==> old(self)@.len() > 0,
            action is Some ==> action->0 == old(self)@[0] && final(self)@ == old(self)@.drop_first(),
            action is None ==> final(self)@ == old(self)@,
    {
        self.queue.pop_front()
    }

    /// The number of waiting actions.
    pub fn len(&self) -> (n: usize)
        ensures
            n == self@.len(),
    {
        self.queue.len()
    }

    /// Puts the whole of another queue in front of this one. The actions of
    /// the other queue keep their order, and all of them come before those
    /// that were waiting here.
    pub fn push_front(&mut self, other: Dispatcher<Action, State>)
        ensures
            final(self)@ == other@ + old(self)@,
    {
        let mut other = other;
        let ghost moved = other@;
        while other.queue.len() > 0
            invariant
                other@.len() <= moved.len(),
                other@ == moved.take(other@.len() as int),
                self@ == moved.skip(other@.len() as int) + old(self)@,
            decreases other@.len(),
        {
            let last = other.queue.pop_back();
            match last {
                Some(action) => {
                    self.queue.push_front(action);
                    assert(other@ =~= moved.take(other@.len() as int));
                    assert(self@ =~= moved.skip(other@.len() as int) + old(self)@);
                },
                None => {},
            }
        }
        assert(self@ =~= moved + old(self)@);
    }
}

} // verus!
