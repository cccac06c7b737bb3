//! A queue of actions that were made from actions of other types.

use crate::action::enabling_condition::EnablingCondition;
use crate::timestamp::Timestamp;
use std::collections::VecDeque;
use std::marker::PhantomData;
use vstd::prelude::*;
use vstd::std_specs::convert::IntoSpec;

verus! {

/// An action of the state machine that was made from an action of some other
/// type. Its enabling condition for the state `S` and its conversion to `A`
/// are those of the action that it holds.
pub struct AnyAction<A, S> {
    pub(crate) inner: A,
    pub(crate) _marker: PhantomData<S>,
}

impl<A, S> View for AnyAction<A, S> {
    type V = A;

    /// The action that is held.
    open(crate) spec fn view(&self) -> A {
        self.inner
    }
}

impl<A, S> AnyAction<A, S> {
    /// Makes the state machine's action from `action` and holds it.
    pub fn new<T>(action: T) -> (any: Self) where T: Into<A>
        ensures
            call_ensures(T::into, (action,), any@),
            T::obeys_into_spec() ==> any@ == action.into_spec(),
    {
        Self { inner: action.into(), _marker: PhantomData }
    }

    /// Whether the action is enabled for the given state and time.
    pub fn is_enabled(&self, state: &S, time: Timestamp) -> (enabled: bool) where
        A: EnablingCondition<S>,

        ensures
            enabled == self@.enabled(state, time),
    {
        self.inner.is_enabled(state, time)
    }

    /// A copy of the action.
    pub fn convert(&self) -> (action: A) where A: Clone
        ensures
            cloned(self@, action),
    {
        self.inner.clone()
    }
}

/// A first-in, first-out queue of actions.
pub struct ActionQueue<Action, State> {
    pub(crate) queue: VecDeque<AnyAction<Action, State>>,
    pub(crate) _marker: PhantomData<(Action, State)>,
}

impl<Action, State> View for ActionQueue<Action, State> {
    type V = Seq<Action>;

    /// The waiting actions, the next one to be taken first.
    open(crate) spec fn view(&self) -> Seq<Action> {
        Seq::new(self.queue@.len(), |i: int| self.queue@[i]@)
    }
}

impl<Action, State> ActionQueue<Action, State> {
    /// An empty queue.
    pub fn new() -> (queue: Self)
        ensures
            queue@ == Seq::<Action>::empty(),
    {
        let queue = Self { queue: VecDeque::new(), _marker: PhantomData };
        assert(queue@ =~= Seq::<Action>::empty());
        queue
    }

    /// Puts an action at the back of the queue.
    pub fn push<T>(&mut self, action: T) where
        T: 'static + EnablingCondition<State> + Into<Action> + Clone + Send,
        State: 'static,
        Action: 'static,

        ensures
            final(self)@.len() == old(self)@.len() + 1,
            final(self)@.drop_last() == old(self)@,
            call_ensures(T::into, (action,), final(self)@.last()),
            T::obeys_into_spec() ==> final(self)@ == old(self)@.push(action.into_spec()),
    {
        let wrapped_action = AnyAction::<Action, State>::new(action);
        self.queue.push_back(wrapped_action);
        assert(self@.drop_last() =~= old(self)@);
        assert(T::obeys_into_spec() ==> self@ =~= old(self)@.push(action.into_spec()));
    }

    /// Takes the action at the front of the queue, if there is one.
    pub fn pop(&mut self) -> (action: Option<AnyAction<Action, State>>)
        ensures
            action is Some <==> old(self)@.len() > 0,
            action is Some ==> (action->0)@ == old(self)@[0] && final(self)@ == old(
                self,
            )@.drop_first(),
            action is None ==> final(self)@ == old(self)@,
    {
        let action = self.queue.pop_front();
        assert(action is Some ==> self@ =~= old(self)@.drop_first());
        assert(action is None ==> self@ =~= old(self)@);
        action
    }

    /// Puts the whole of another queue in front of this one. The actions of
    /// the other queue keep their order, and all of them come before those
    /// that were waiting here.
    pub fn push_front(&mut self, other: ActionQueue<Action, State>)
        ensures
            final(self)@ == other@ + old(self)@,
    {
        let mut other = other;
        let ghost moved = other@;
        while other.queue.len() > 0
            invariant
                other@.len() <= moved.len(),
                other@ == moved.take(other@.len() as int),
                self@ == moved.skip(other@.len() as int) + old(self)@,
            decreases other@.len(),
        {
            let ghost target = self@;
            let ghost source = other@;
            let last = other.queue.pop_back();
            match last {
                Some(action) => {
                    self.queue.push_front(action);
                    assert(other@ =~= source.drop_last());
                    assert(self@ =~= seq![source.last()] + target);
                    assert(other@ =~= moved.take(other@.len() as int));
                    assert(self@ =~= moved.skip(other@.len() as int) + old(self)@);
                },
                None => {},
            }
        }
        assert(self@ =~= moved + old(self)@);
    }

    /// An empty queue for the actions of a part of the state machine.
    pub fn sub_queue<SubAction, SubState>(&self) -> (queue: ActionQueue<SubAction, SubState>) where
        SubAction: Into<Action>,

        ensures
            queue@ == Seq::<SubAction>::empty(),
    {
        ActionQueue::new()
    }
}

} // verus!
