//! The store: it owns the state and runs the dispatch of actions.
//!
//! To dispatch an action, the store
//!
//! 1. checks the action's enabling condition against the current state and
//!    the last id that it has assigned; an action that is not enabled is not
//!    dispatched, and nothing changes;
//! 2. assigns the action its id, the later of the wall-clock time and the id
//!    after the last one, and notes the last id as the action's predecessor
//!    and the current depth of recursion as its depth;
//! 3. goes one level deeper and runs the reducer, which updates the state and
//!    may queue further actions;
//! 4. puts what the reducer queued in front of the actions that are pending;
//! 5. runs the effects, which may dispatch further actions directly: each of
//!    them is processed to its end before the effects go on;
//! 6. takes the actions that the reducer queued from the front of the pending
//!    ones, one by one, and dispatches each that is enabled by then in the
//!    same way, to its end, before it takes the next; one that is not enabled
//!    is dropped;
//! 7. comes back to the level at which it started.
//!
//! So the ids grow strictly in the order in which actions are processed,
//! whatever the clock does. What the effects of an action dispatch comes
//! before what its reducer queued, and that before anything that was pending
//! when the action was dispatched.

use crate::action::action_id::ActionId;
use crate::action::action_meta::{ActionMeta, RecursionDepth};
use crate::action::action_with_meta::ActionWithMeta;
use crate::action::enabling_condition::EnablingCondition;
use crate::callback::{AnyAction, Callback};
use crate::dispatcher::Dispatcher;
use crate::effects::Effects;
use crate::history::{
    cascade, chained, drained, extends, frame, framed, last_id, last_state, lemma_causal_chain,
    is_child, lemma_direct_before_queued, lemma_framed_pop, lemma_framed_push,
    lemma_next_not_deeper, lemma_queued_in_order, span_end,
    lemma_chained_empty, lemma_chained_push, lemma_drain_skip, lemma_drain_start,
    lemma_drain_step, lemma_extends_index, lemma_extends_len, lemma_extends_push,
    lemma_extends_transitive, lemma_id_bounds, lemma_ids_increase, lemma_reduced_empty,
    lemma_reduced_push, reduced, runnable, Record,
};
use crate::instant::{saturating_diff, Instant};
use crate::reducer::Reducer;
use crate::service::TimeService;
use crate::sub_store::SubStore;
use crate::timestamp::Timestamp;
use vstd::prelude::*;
use vstd::std_specs::convert::IntoSpec;

verus! {

/// Wraps around State and allows only immutable borrow,
/// through `StateWrapper::get` method.
///
/// Mutable borrow of state can only happen in reducer.
pub struct StateWrapper<State> {
    pub(crate) inner: State,
}

impl<State> StateWrapper<State> {
    /// The state, for use in specifications.
    pub open(crate) spec fn spec_get(&self) -> &State {
        &self.inner
    }

    /// Get immutable reference to State.
    #[inline(always)]
    #[verifier::when_used_as_spec(spec_get)]
    pub fn get(&self) -> (state: &State)
        ensures
            state == self.get(),
    {
        &self.inner
    }

    /// Get mutable reference to State.
    ///
    /// Only the store uses it, to hand the state to the reducer.
    #[inline(always)]
    fn get_mut(&mut self) -> (state: &mut State)
        ensures
            *state == *old(self).get(),
            *final(self).get() == *final(state),
    {
        &mut self.inner
    }
}

impl<T: Clone> Clone for StateWrapper<T> {
    fn clone(&self) -> (wrapper: Self)
        ensures
            cloned(*self.get(), *wrapper.get()),
    {
        Self { inner: self.inner.clone() }
    }
}

/// Monotonic and system time reference points: one reading of the monotonic
/// clock, and the wall-clock time at which it was taken.
#[derive(Copy, Clone, Debug, Eq, PartialEq, Structural)]
pub struct ClockAnchor {
    pub(crate) monotonic: Instant,
    pub(crate) system: Timestamp,
}

/// What a [`ClockAnchor`] holds, as plain numbers of nanoseconds.
pub struct ClockAnchorView {
    /// The reading of the monotonic clock.
    pub monotonic: u64,
    /// The wall-clock time of that reading, since the Unix epoch.
    pub system: u64,
}

/// `a + b` in 64 bits, where a sum beyond the range starts again at zero.
pub open spec fn wrapping_sum(a: u64, b: u64) -> u64 {
    if a + b > u64::MAX {
        (a + b - 0x1_0000_0000_0000_0000) as u64
    } else {
        (a + b) as u64
    }
}

impl ClockAnchorView {
    /// The wall-clock time of a monotonic reading, in nanoseconds since the
    /// Unix epoch: the anchor's wall-clock time plus the time that has passed
    /// on the monotonic clock since the anchor's reading (none, where the
    /// reading is an earlier one).
    pub open spec fn time_at(self, monotonic_now: u64) -> u64 {
        wrapping_sum(self.system, saturating_diff(monotonic_now, self.monotonic))
    }
}

impl View for ClockAnchor {
    type V = ClockAnchorView;

    open(crate) spec fn view(&self) -> ClockAnchorView {
        ClockAnchorView { monotonic: self.monotonic@, system: self.system@ }
    }
}

impl ClockAnchor {
    /// The anchor that ties the monotonic reading `monotonic` to the
    /// wall-clock time `system`.
    pub fn new(monotonic: Instant, system: Timestamp) -> (anchor: Self)
        ensures
            anchor@ == (ClockAnchorView { monotonic: monotonic@, system: system@ }),
    {
        Self { monotonic, system }
    }

    /// The reading of the monotonic clock.
    pub fn monotonic(&self) -> (monotonic: Instant)
        ensures
            monotonic@ == self@.monotonic,
    {
        self.monotonic
    }

    /// The wall-clock time of that reading.
    pub fn system(&self) -> (system: Timestamp)
        ensures
            system@ == self@.system,
    {
        self.system
    }
}

/// Converts monotonic time to nanoseconds since Unix epoch.
pub fn monotonic_to_time(anchor: &ClockAnchor, time: Instant) -> (nanos: u64)
    ensures
        nanos == anchor@.time_at(time@),
{
    let time_passed: u64 = time.nanos.saturating_sub(anchor.monotonic.nanos);
    anchor.system.0.wrapping_add(time_passed)
}

/// The id of the next action: the wall-clock time `now`, or the id that
/// follows `prev` directly where the clock has not gone beyond `prev`.
pub open spec fn next_id(prev: u64, now: u64) -> int {
    if now > prev {
        now as int
    } else {
        prev + 1
    }
}

/// The id for the next action after the one with id `prev`, at wall-clock
/// time `now`: `now` where that is later than `prev`, and else `prev` plus one
/// nanosecond. So the ids of successive actions grow strictly, whatever the
/// clock does, and follow the clock wherever it has advanced.
pub fn next_action_id(prev: ActionId, now: Timestamp) -> (id: ActionId)
    requires
        prev@ < u64::MAX,
    ensures
        id@ == next_id(prev@, now@),
        id@ > prev@,
        id@ >= now@,
{
    let time_passed: u64 = now.0.saturating_sub(prev.0.0);
    prev.next(time_passed)
}

/// Main struct for the state machine.
///
/// Exposes a [`Store::dispatch`] method, using
/// which actions can be dispatched, which triggers a
/// 1. [`Reducer`] - to update the state.
/// 2. [`Effects`] - to trigger side-effects of the action.
pub struct Store<State, Service, Action, R, E> {
    pub(crate) reducer: R,
    pub(crate) effects: E,
    /// Current State.
    ///
    /// Immutable access can be gained using `store.state()`.
    /// Mutation can only happen inside reducer.
    pub(crate) state: StateWrapper<State>,
    pub service: Service,
    pub(crate) initial_monotonic_time: Instant,
    pub(crate) initial_time: Timestamp,
    /// Current recursion depth of dispatch.
    pub(crate) recursion_depth: RecursionDepth,
    pub(crate) last_action_id: ActionId,
    /// The actions that reducers have queued and that are not dispatched yet.
    pub(crate) pending: Dispatcher<Action, State>,
    /// Every action dispatched so far, in the order of dispatch.
    pub(crate) history: Ghost<Seq<Record<State, Action>>>,
    /// The state that the records start from.
    pub(crate) initial_state: Ghost<State>,
    /// The last id that was assigned before the first record.
    pub(crate) base_id: Ghost<u64>,
}

impl<State, Service, Action, R, E> Store<State, Service, Action, R, E> {
    /// The current state, for use in specifications.
    pub open(crate) spec fn spec_state(&self) -> &State {
        &self.state.inner
    }

    /// Returns the current state.
    #[inline(always)]
    #[verifier::when_used_as_spec(spec_state)]
    pub fn state(&self) -> (state: &State)
        ensures
            state == self.state(),
    {
        self.state.get()
    }

    /// The service.
    pub open(crate) spec fn spec_service(&self) -> Service {
        self.service
    }

    /// The reducer that the store was made with.
    pub open(crate) spec fn reducer(&self) -> R {
        self.reducer
    }

    /// The effects that the store was made with.
    pub open(crate) spec fn effects(&self) -> E {
        self.effects
    }

    /// The anchor that ties the store's monotonic clock to the wall clock:
    /// the first reading of the monotonic clock, and the wall-clock time that
    /// the store was made with.
    pub open(crate) spec fn anchor(&self) -> ClockAnchorView {
        ClockAnchorView { monotonic: self.initial_monotonic_time@, system: self.initial_time@ }
    }

    /// The id that was assigned last; before the first dispatch, the
    /// wall-clock time that the store was made with.
    pub open(crate) spec fn last_action_id(&self) -> ActionId {
        self.last_action_id
    }

    /// Current recursion depth of dispatch: the number of actions whose
    /// processing is under way.
    pub open(crate) spec fn depth(&self) -> RecursionDepth {
        self.recursion_depth
    }

    /// The actions that reducers have queued and that are not dispatched yet,
    /// the next one first.
    pub open(crate) spec fn pending(&self) -> Seq<Action> {
        self.pending@
    }

    /// Every action dispatched so far, in the order of dispatch.
    pub open(crate) spec fn history(&self) -> Seq<Record<State, Action>> {
        self.history@
    }

    /// The state that the records start from: the state that the store was
    /// made with.
    pub open(crate) spec fn initial_state(&self) -> State {
        self.initial_state@
    }

    /// The id that the records start from: the wall-clock time that the
    /// store was made with and, for a copy of a store, the last id that the
    /// copied store had assigned.
    pub open(crate) spec fn base_id(&self) -> u64 {
        self.base_id@
    }

    /// No further action can be dispatched: the ids or the levels of recursion
    /// are used up.
    pub open spec fn exhausted(&self) -> bool {
        self.last_action_id()@ == u64::MAX || self.depth() == u32::MAX
    }

    /// The store has come from `before` by dispatching: reducer, effects,
    /// anchor, depth and pending actions are the same, the records of
    /// `before` are still there, in front, and the last id has not gone back.
    /// State and service may have changed.
    pub open spec fn follows(&self, before: Self) -> bool {
        &&& self.reducer() == before.reducer()
        &&& self.effects() == before.effects()
        &&& self.anchor() == before.anchor()
        &&& self.initial_state() == before.initial_state()
        &&& self.base_id() == before.base_id()
        &&& self.depth() == before.depth()
        &&& self.pending() == before.pending()
        &&& extends(self.history(), before.history())
        &&& self.last_action_id()@ >= before.last_action_id()@
    }
}

impl<State, Service, Action, R, E> Store<State, Service, Action, R, E> where
    Action: EnablingCondition<State>,
    R: Reducer<State, Action>,
 {
    /// The store's bookkeeping is consistent with its records.
    ///
    /// - The records are chained from the store's first id on, each with the
    ///   id that its predecessor and the clock give it, and the last assigned
    ///   id is that of the last record.
    /// - Each record holds what the reducer made of its action, from the
    ///   store's initial state on, and the state is as the last reducer left
    ///   it.
    /// - Every action whose processing is over has all that it brought about
    ///   on record behind it.
    pub open spec fn wf(&self) -> bool {
        &&& chained(self.history(), self.base_id(), self.anchor())
        &&& self.last_action_id()@ == last_id(self.history(), self.base_id())
        &&& reduced(self.history(), self.initial_state(), self.reducer())
        &&& *self.state() == last_state(self.history(), self.initial_state())
        &&& framed(self.history(), self.depth())
    }

    /// What a call to dispatch an action has done to the store, which was
    /// `before`. Where nothing was dispatched, nothing has changed. Where the
    /// action was dispatched, the store [`follows`](Self::follows) `before`;
    /// the first new record is that of the action, dispatched directly at the
    /// depth of `before`, with the last id of `before` as its predecessor and
    /// a later id of its own; the records behind it are what the processing
    /// of the action brought about.
    pub open spec fn dispatched_from(&self, before: Self, dispatched: bool) -> bool {
        &&& !dispatched ==> *self == before
        &&& dispatched ==> {
            let at = before.history().len() as int;
            &&& self.follows(before)
            &&& self.last_action_id()@ > before.last_action_id()@
            &&& frame(self.history(), at, before.depth(), None)
            &&& self.history()[at].meta@.prev == before.last_action_id()@
            &&& self.history()[at].meta@.id > before.last_action_id()@
        }
    }

    /// The ids that a store assigns grow strictly: of two actions on record
    /// the one that was dispatched later has the later id. So no two actions
    /// have the same id, however fast they follow one another. All ids lie
    /// after the id that the records start from, and none after the id that
    /// was assigned last.
    pub proof fn lemma_ids_grow(store: Self, i: int, j: int)
        requires
            store.wf(),
            0 <= i < j < store.history().len(),
        ensures
            store.base_id() < store.history()[i].meta@.id,
            store.history()[i].meta@.id < store.history()[j].meta@.id,
            store.history()[j].meta@.id <= store.last_action_id()@,
    {
        lemma_ids_increase(store.history(), store.base_id(), store.anchor(), i, j);
        lemma_id_bounds(store.history(), store.base_id(), store.anchor(), j);
    }

    /// The id of an action is the wall-clock time at which it was dispatched,
    /// as the store's anchor gives it for the reading of the monotonic clock,
    /// or the id that follows its predecessor directly where the clock has
    /// not gone beyond the predecessor.
    pub proof fn lemma_ids_follow_the_clock(store: Self, i: int)
        requires
            store.wf(),
            0 <= i < store.history().len(),
        ensures
            store.history()[i].meta@.id == next_id(
                store.history()[i].meta@.prev,
                store.anchor().time_at(store.history()[i].reading@),
            ),
            store.history()[i].meta@.id > store.history()[i].meta@.prev,
            store.history()[i].meta@.id >= store.anchor().time_at(store.history()[i].reading@),
    {
        reveal(chained);
    }

    /// Every action on record went through the reducer, which found the
    /// state as the action before had left it (the first one found the
    /// store's initial state), and what the reducer left is on record: the
    /// state, and the actions that it queued. The store's state is the one
    /// that the last reducer left.
    pub proof fn lemma_records_are_reduced(store: Self, i: int)
        requires
            store.wf(),
            0 <= i < store.history().len(),
        ensures
            store.reducer().reduces(
                if i == 0 {
                    store.initial_state()
                } else {
                    store.history()[i - 1].after
                },
                store.history()[i].meta.with_action(store.history()[i].action),
                store.history()[i].after,
                store.history()[i].enqueued,
            ),
            *store.state() == store.history().last().after,
    {
        reveal(reduced);
        if i > 0 {
            assert(store.history().take(i).last() == store.history()[i - 1]);
        } else {
            assert(store.history().take(0).len() == 0);
        }
    }

    /// Every action whose processing is over has all that it brought about on
    /// record behind it: from its record to the end of its span the records
    /// are a frame, in which what its effects dispatched directly comes
    /// first and what its reducer queued comes after that, in the order of
    /// the queue. The processing of an action is over where a later record
    /// is not deeper than its own, or where the store is not deeper than the
    /// action: in a store at depth zero, that of every action on record.
    pub proof fn lemma_finished_actions_are_framed(store: Self, i: int)
        requires
            store.wf(),
            0 <= i < store.history().len(),
            span_end(store.history(), i) < store.history().len() || store.history()[i].meta@.depth
                >= store.depth(),
        ensures
            i < span_end(store.history(), i) <= store.history().len(),
            frame(
                store.history().take(span_end(store.history(), i)),
                i,
                store.history()[i].meta@.depth,
                store.history()[i].queued,
            ),
    {
        reveal(framed);
        lemma_next_not_deeper(store.history(), i + 1, store.history()[i].meta@.depth as int);
    }

    /// What the effects of an action dispatch directly is processed, with all
    /// that follows from it, before anything that the action's reducer had
    /// queued: among the records that a finished action brought about, of
    /// two actions one level below it the earlier one was dispatched
    /// directly if the later one was.
    pub proof fn lemma_effects_come_before_the_queue(store: Self, at: int, i: int, j: int)
        requires
            store.wf(),
            0 <= at < i < j < span_end(store.history(), at) <= store.history().len(),
            span_end(store.history(), at) < store.history().len() || store.history()[at].meta@.depth
                >= store.depth(),
            store.history()[i].meta@.depth == store.history()[at].meta@.depth + 1,
            store.history()[j].meta@.depth == store.history()[at].meta@.depth + 1,
            store.history()[j].queued is None,
        ensures
            store.history()[i].queued is None,
    {
        Self::lemma_finished_actions_are_framed(store, at);
        lemma_direct_before_queued(
            store.history().take(span_end(store.history(), at)),
            at,
            store.history()[at].meta@.depth,
            store.history()[at].queued,
            i,
            j,
        );
    }

    /// What the reducer of an action queued is dispatched in the order in
    /// which it was queued: among the records that a finished action brought
    /// about, of two actions that were taken from its queue the earlier one
    /// stood at the earlier place, and each is the action that was queued at
    /// its place.
    pub proof fn lemma_the_queue_keeps_its_order(store: Self, at: int, i: int, j: int)
        requires
            store.wf(),
            0 <= at < i < j < span_end(store.history(), at) <= store.history().len(),
            span_end(store.history(), at) < store.history().len() || store.history()[at].meta@.depth
                >= store.depth(),
            is_child(store.history()[i], store.history()[at].meta@.depth + 1),
            is_child(store.history()[j], store.history()[at].meta@.depth + 1),
        ensures
            store.history()[i].queued->0 < store.history()[j].queued->0
                < store.history()[at].enqueued.len(),
            store.history()[i].action == store.history()[at].enqueued[store.history()[i].queued->0 as int],
            store.history()[j].action == store.history()[at].enqueued[store.history()[j].queued->0 as int],
    {
        Self::lemma_finished_actions_are_framed(store, at);
        lemma_queued_in_order(
            store.history().take(span_end(store.history(), at)),
            at,
            store.history()[at].meta@.depth,
            store.history()[at].queued,
            i,
            j,
        );
    }

    /// Of two actions that were dispatched one after the other, by two calls
    /// on one store, the second has the later id: `second` is the store after
    /// the first call, `third` the store after the second one.
    pub proof fn lemma_successive_ids_grow(first: Self, second: Self, third: Self)
        requires
            second.dispatched_from(first, true),
            third.dispatched_from(second, true),
            third.wf(),
        ensures
            first.history().len() < second.history().len() < third.history().len(),
            third.history()[first.history().len() as int] == second.history()[first.history().len() as int],
            third.history()[first.history().len() as int].meta@.id < third.history()[second.history().len() as int].meta@.id,
            third.history()[second.history().len() as int].meta@.prev
                == second.last_action_id()@,
    {
        lemma_extends_index(third.history(), second.history(), first.history().len() as int);
        lemma_ids_increase(
            third.history(),
            third.base_id(),
            third.anchor(),
            first.history().len() as int,
            second.history().len() as int,
        );
    }

    /// The predecessors that the records name lead back through all actions
    /// in the reverse order of their dispatch: each record but the first
    /// names the id of the record just before it, which is the id of no other
    /// record, and the first record names the id that the records start from.
    pub proof fn lemma_predecessors_lead_back(store: Self, i: int, j: int)
        requires
            store.wf(),
            0 < i < store.history().len(),
            0 <= j < store.history().len(),
        ensures
            store.history()[i].meta@.prev == store.history()[i - 1].meta@.id,
            store.history()[j].meta@.id == store.history()[i].meta@.prev <==> j == i - 1,
            store.history()[0].meta@.prev == store.base_id(),
    {
        lemma_causal_chain(store.history(), store.base_id(), store.anchor(), i, j);
    }
}

impl<State, Service, Action, R, E> Store<State, Service, Action, R, E> where
    Service: TimeService,
    Action: EnablingCondition<State>,
    R: Reducer<State, Action>,
    E: Effects<State, Service, Action, R>,
 {
    /// Creates a new store.
    pub fn new(
        reducer: R,
        effects: E,
        service: Service,
        initial_time: Timestamp,
        initial_state: State,
    ) -> (store: Self)
        ensures
            store.wf(),
            store.reducer() == reducer,
            store.effects() == effects,
            *store.state() == initial_state,
            store.anchor().system == initial_time@,
            store.last_action_id()@ == initial_time@,
            store.depth() == 0,
            store.pending() == Seq::<Action>::empty(),
            store.history() == Seq::<Record<State, Action>>::empty(),
            store.initial_state() == initial_state,
            store.base_id() == initial_time@,
    {
        let mut service = service;
        let initial_monotonic_time = service.monotonic_time();
        let initial_time_nanos: u64 = initial_time.into();
        let ghost anchor = ClockAnchorView {
            monotonic: initial_monotonic_time@,
            system: initial_time@,
        };
        proof {
            lemma_chained_empty::<State, Action>(initial_time@, anchor);
            lemma_reduced_empty::<State, Action, R>(initial_state, reducer);
            reveal(framed);
        }
        let ghost initial = initial_state;
        Self {
            reducer,
            effects,
            service,
            state: StateWrapper { inner: initial_state },
            initial_monotonic_time,
            initial_time,
            recursion_depth: 0,
            last_action_id: ActionId::new_unchecked(initial_time_nanos),
            pending: Dispatcher::new(),
            history: Ghost(Seq::empty()),
            initial_state: Ghost(initial),
            base_id: Ghost(initial_time@),
        }
    }

    /// The service, to use it. Nothing else of the store can be changed
    /// through the reference.
    #[inline(always)]
    pub fn service(&mut self) -> (service: &mut Service)
        ensures
            *service == old(self).spec_service(),
            final(self).spec_service() == *final(service),
            final(self).state() == old(self).state(),
            final(self).reducer() == old(self).reducer(),
            final(self).effects() == old(self).effects(),
            final(self).anchor() == old(self).anchor(),
            final(self).depth() == old(self).depth(),
            final(self).initial_state() == old(self).initial_state(),
            final(self).base_id() == old(self).base_id(),
            final(self).pending() == old(self).pending(),
            final(self).history() == old(self).history(),
            final(self).last_action_id() == old(self).last_action_id(),
    {
        &mut self.service
    }

    /// The current state, to read it, together with the service, to use it.
    /// Nothing else of the store can be changed through the references.
    pub fn state_and_service(&mut self) -> (parts: (&State, &mut Service))
        ensures
            parts.0 == old(self).state(),
            *parts.1 == old(self).spec_service(),
            final(self).spec_service() == *final(parts.1),
            final(self).state() == old(self).state(),
            final(self).reducer() == old(self).reducer(),
            final(self).effects() == old(self).effects(),
            final(self).anchor() == old(self).anchor(),
            final(self).depth() == old(self).depth(),
            final(self).initial_state() == old(self).initial_state(),
            final(self).base_id() == old(self).base_id(),
            final(self).pending() == old(self).pending(),
            final(self).history() == old(self).history(),
            final(self).last_action_id() == old(self).last_action_id(),
    {
        (&self.state.inner, &mut self.service)
    }

    /// The anchor that ties the store's monotonic clock to the wall clock.
    pub fn clock_anchor(&self) -> (anchor: ClockAnchor)
        ensures
            anchor@ == self.anchor(),
    {
        ClockAnchor::new(self.initial_monotonic_time, self.initial_time)
    }

    /// Convert monotonic time to system clock in nanoseconds from epoch.
    pub fn monotonic_to_time(&self, monotonic_time: Instant) -> (nanos: u64)
        ensures
            nanos == self.anchor().time_at(monotonic_time@),
    {
        let anchor = self.clock_anchor();
        monotonic_to_time(&anchor, monotonic_time)
    }

    /// Dispatch an Action.
    ///
    /// Returns `true` if the action was enabled, hence if it was dispatched
    /// to reducer and then effects.
    ///
    /// If action is not enabled, we return false and do nothing. The same
    /// holds where the store is [`exhausted`](Self::exhausted).
    pub fn dispatch<T>(&mut self, action: T) -> (dispatched: bool) where
        T: Into<Action> + EnablingCondition<State>,

        requires
            old(self).wf(),
        ensures
            final(self).wf(),
            dispatched == (action.enabled(
                old(self).state(),
                Timestamp::new(old(self).last_action_id()@),
            ) && !old(self).exhausted()),
            final(self).dispatched_from(*old(self), dispatched),
            dispatched ==> call_ensures(
                T::into,
                (action,),
                final(self).history()[old(self).history().len() as int].action,
            ),
            dispatched && T::obeys_into_spec() ==> final(self).history()[old(
                self,
            ).history().len() as int].action == action.into_spec(),
    {
        if !action.is_enabled(self.state(), self.last_action_id.into()) {
            return false;
        }
        if self.is_exhausted() {
            return false;
        }
        self.dispatch_enabled(action.into(), Ghost(None));
        true
    }

    /// Calls the callback on `args` and dispatches the action that it gives.
    pub fn dispatch_callback<T, F>(&mut self, callback: Callback<T, F>, args: T) -> (dispatched:
        bool) where T: 'static, F: Fn(T) -> AnyAction, Action: From<AnyAction>
        requires
            old(self).wf(),
            callback.function() is Some,
            call_requires(callback.function()->0, (args,)),
        ensures
            final(self).wf(),
            final(self).dispatched_from(*old(self), dispatched),
            exists|any: AnyAction, action: Action|
                {
                    &&& call_ensures(callback.function()->0, (args,), any)
                    &&& call_ensures(Action::from, (any,), action)
                    &&& dispatched == (action.enabled(
                        old(self).state(),
                        Timestamp::new(old(self).last_action_id()@),
                    ) && !old(self).exhausted())
                    &&& dispatched ==> final(self).history()[old(self).history().len() as int].action
                        == action
                },
    {
        let action: Action = callback.call(args);
        if !action.is_enabled(self.state(), self.last_action_id.into()) {
            return false;
        }
        if self.is_exhausted() {
            return false;
        }
        self.dispatch_enabled(action, Ghost(None));
        true
    }

    /// Dispatch an Action (For `SubStore`).
    ///
    /// Returns `true` if the action was enabled, hence if it was dispatched
    /// to reducer and then effects.
    ///
    /// If action is not enabled, we return false and do nothing. The same
    /// holds where the store is [`exhausted`](Self::exhausted).
    pub fn sub_dispatch<A, S>(&mut self, action: A) -> (dispatched: bool) where
        A: Into<<Self as SubStore<State, S>>::SubAction> + EnablingCondition<S>,
        <Self as SubStore<State, S>>::SubAction: Into<Action>,
        Self: SubStore<State, S>,

        requires
            old(self).wf(),
        ensures
            final(self).wf(),
            dispatched == (action.enabled(
                old(self).sub_state(),
                Timestamp::new(old(self).last_action_id()@),
            ) && !old(self).exhausted()),
            final(self).dispatched_from(*old(self), dispatched),
            dispatched ==> exists|sub_action: <Self as SubStore<State, S>>::SubAction|
                {
                    &&& call_ensures(A::into, (action,), sub_action)
                    &&& call_ensures(
                        <<Self as SubStore<State, S>>::SubAction as Into<Action>>::into,
                        (sub_action,),
                        final(self).history()[old(self).history().len() as int].action,
                    )
                },
            dispatched && A::obeys_into_spec() && <<Self as SubStore<
                State,
                S,
            >>::SubAction as IntoSpec<Action>>::obeys_into_spec() ==> final(self).history()[old(
                self,
            ).history().len() as int].action == action.into_spec().into_spec(),
    {
        if !action.is_enabled(
            <Self as SubStore<State, S>>::state(self),
            self.last_action_id.into(),
        ) {
            return false;
        }
        if self.is_exhausted() {
            return false;
        }
        let sub_action: <Self as SubStore<State, S>>::SubAction = action.into();
        let ghost made = sub_action;
        let global_action: Action = sub_action.into();
        assert(call_ensures(A::into, (action,), made) && call_ensures(
            <<Self as SubStore<State, S>>::SubAction as Into<Action>>::into,
            (made,),
            global_action,
        ));
        self.dispatch_enabled(global_action, Ghost(None));
        true
    }

    /// Whether the ids or the levels of recursion are used up.
    fn is_exhausted(&self) -> (exhausted: bool)
        ensures
            exhausted == self.exhausted(),
    {
        let last: u64 = self.last_action_id.into();
        last == u64::MAX || self.recursion_depth == u32::MAX
    }

    /// Assigns the id of the next action, and returns the one before it,
    /// with the clock reading that the new id was made from.
    fn update_action_id(&mut self) -> (assigned: (ActionId, Ghost<Instant>))
        requires
            old(self).last_action_id()@ < u64::MAX,
        ensures
            assigned.0 == old(self).last_action_id(),
            final(self).last_action_id()@ > assigned.0@,
            final(self).last_action_id()@ == next_id(
                assigned.0@,
                old(self).anchor().time_at(assigned.1@@),
            ),
            final(self).reducer() == old(self).reducer(),
            final(self).effects() == old(self).effects(),
            final(self).state() == old(self).state(),
            final(self).anchor() == old(self).anchor(),
            final(self).initial_state() == old(self).initial_state(),
            final(self).base_id() == old(self).base_id(),
            final(self).depth() == old(self).depth(),
            final(self).pending() == old(self).pending(),
            final(self).history() == old(self).history(),
    {
        let prev_action_id = self.last_action_id;
        let monotonic_now = self.service.monotonic_time();
        let now = Timestamp::new(self.monotonic_to_time(monotonic_now));
        self.last_action_id = next_action_id(prev_action_id, now);
        (prev_action_id, Ghost(monotonic_now))
    }

    /// Dispatches action without checking the enabling condition.
    fn dispatch_enabled(&mut self, action: Action, Ghost(origin): Ghost<Option<nat>>)
        requires
            old(self).wf(),
            !old(self).exhausted(),
        ensures
            final(self).wf(),
            final(self).follows(*old(self)),
            final(self).last_action_id()@ > old(self).last_action_id()@,
            frame(final(self).history(), old(self).history().len() as int, old(self).depth(), origin),
            final(self).history()[old(self).history().len() as int].action == action,
            final(self).history()[old(self).history().len() as int].meta@.prev == old(
                self,
            ).last_action_id()@,
            final(self).history()[old(self).history().len() as int].meta@.id > old(
                self,
            ).last_action_id()@,
        decreases u64::MAX - old(self).last_action_id()@, 0nat,
    {
        let (prev, Ghost(reading)) = self.update_action_id();
        let depth = self.recursion_depth;
        self.recursion_depth = depth + 1;

        let action_with_meta = ActionMeta::new(self.last_action_id, prev, depth).with_action(action);

        let mut dispatcher = Dispatcher::new();
        self.dispatch_reducer(&action_with_meta, &mut dispatcher);
        let ghost record = Record {
            meta: action_with_meta.meta,
            action: action_with_meta.action,
            queued: origin,
            enqueued: dispatcher@,
            after: *self.state(),
            reading,
        };
        let ghost at = self.history@.len() as int;
        proof {
            lemma_framed_push(self.history@, depth, record);
            lemma_chained_push(self.history@, self.base_id(), self.anchor(), record);
            lemma_reduced_push(self.history@, self.initial_state(), self.reducer(), record);
            lemma_extends_push(self.history@, record);
            self.history@ = self.history@.push(record);
        }
        let ghost reduced = self.history@;
        self.dispatch_effects(action_with_meta, dispatcher);

        self.recursion_depth = self.recursion_depth - 1;
        proof {
            lemma_extends_index(self.history@, reduced, at);
            lemma_extends_transitive(self.history@, reduced, old(self).history());
            lemma_framed_pop(self.history@, depth, at);
        }
    }

    /// Runs the reducer.
    #[inline(always)]
    fn dispatch_reducer(
        &mut self,
        action_with_id: &ActionWithMeta<Action>,
        dispatcher: &mut Dispatcher<Action, State>,
    )
        requires
            old(dispatcher)@.len() == 0,
        ensures
            final(self).reducer() == old(self).reducer(),
            final(self).effects() == old(self).effects(),
            final(self).anchor() == old(self).anchor(),
            final(self).initial_state() == old(self).initial_state(),
            final(self).base_id() == old(self).base_id(),
            final(self).depth() == old(self).depth(),
            final(self).pending() == old(self).pending(),
            final(self).history() == old(self).history(),
            final(self).last_action_id() == old(self).last_action_id(),
            final(self).reducer().reduces(
                *old(self).state(),
                *action_with_id,
                *final(self).state(),
                final(dispatcher)@,
            ),
    {
        self.reducer.reduce(self.state.get_mut(), action_with_id, dispatcher);
    }

    /// Runs the effects, then dispatches what the reducer had queued.
    #[inline(always)]
    fn dispatch_effects(
        &mut self,
        action_with_id: ActionWithMeta<Action>,
        queued: Dispatcher<Action, State>,
    )
        requires
            old(self).wf(),
            old(self).history().len() > 0,
            old(self).history().last().meta == action_with_id.meta(),
            old(self).history().last().action == action_with_id.action(),
            old(self).history().last().enqueued == queued@,
            old(self).last_action_id()@ == action_with_id.meta()@.id,
            old(self).depth() == action_with_id.meta()@.depth + 1,
        ensures
            final(self).wf(),
            final(self).follows(*old(self)),
            cascade(
                final(self).history(),
                old(self).history().len() as int,
                old(self).depth() as int,
                queued@,
            ),
        decreases u64::MAX - old(self).last_action_id()@, 1nat,
    {
        let ghost enqueued = queued@;
        let ghost start = self.history@.len() as int;
        let ghost child_depth = self.recursion_depth;
        let base = self.pending.len();
        // The actions that the reducer queued go in front of those that
        // were waiting already.
        self.pending.push_front(queued);

        assert(self.pending().take(enqueued.len() as int) =~= enqueued);

        // First the effects for this specific action must be handled
        let effects = self.effects;
        effects.effects(self, action_with_id);

        // Then dispatch all actions enqueued by the reducer
        let ghost mut slot: int = 0;
        proof {
            lemma_drain_start(self.history@, start, child_depth, enqueued);
            lemma_extends_len(self.history@, old(self).history());
        }
        while self.pending.len() > base
            invariant
                self.wf(),
                self.reducer() == old(self).reducer(),
                self.effects() == old(self).effects(),
                self.anchor() == old(self).anchor(),
                self.initial_state() == old(self).initial_state(),
                self.base_id() == old(self).base_id(),
                self.depth() == child_depth,
                child_depth == old(self).depth(),
                extends(self.history(), old(self).history()),
                self.last_action_id()@ >= old(self).last_action_id()@,
                start == old(self).history().len(),
                base == old(self).pending().len(),
                0 <= slot <= enqueued.len(),
                0 < start <= self.history().len(),
                self.pending() == enqueued.skip(slot) + old(self).pending(),
                drained(self.history(), start, child_depth as int, enqueued, slot),
            decreases self.pending().len(),
        {
            let ghost before = self.history@;
            let ghost waiting = self.pending@;
            let next = self.pending.pop();
            assert(slot < enqueued.len());
            assert(waiting[0] == enqueued[slot]);
            assert(self.pending() =~= enqueued.skip(slot + 1) + old(self).pending());
            match next {
                Some(action) => {
                    if !self.is_exhausted() && action.is_enabled(
                        self.state(),
                        self.last_action_id.into(),
                    ) {
                        assert(runnable(enqueued[slot], before, before.len() as int, child_depth as int));
                        self.dispatch_enabled(action, Ghost(Some(slot as nat)));
                        proof {
                            lemma_extends_len(self.history@, before);
                            lemma_extends_transitive(self.history@, before, old(self).history());
                            lemma_drain_step(
                                before,
                                self.history@,
                                start,
                                child_depth,
                                enqueued,
                                slot,
                            );
                        }
                    } else {
                        proof {
                            assert(!runnable(
                                enqueued[slot],
                                before,
                                before.len() as int,
                                child_depth as int,
                            ));
                            lemma_drain_skip(before, start, child_depth as int, enqueued, slot);
                        }
                    }
                },
                None => {},
            }
            proof {
                slot = slot + 1;
            }
        }
    }
}

impl<State, Service, Action, R, E> Clone for Store<State, Service, Action, R, E> where
    State: Clone,
    Service: Clone + TimeService,
    Action: Clone + EnablingCondition<State>,
    R: Reducer<State, Action> + Copy,
    E: Effects<State, Service, Action, R>,
 {
    /// A store with copies of the state and of the service, at the same depth
    /// and with the same last id. Nothing is pending in the copy: what a
    /// reducer has queued is dispatched by the store that ran the reducer.
    /// The copy's records start afresh, from the copied state and that id.
    fn clone(&self) -> (store: Self)
        ensures
            store.wf(),
            store.reducer() == self.reducer(),
            store.effects() == self.effects(),
            store.anchor() == self.anchor(),
            store.depth() == self.depth(),
            store.last_action_id() == self.last_action_id(),
            store.base_id() == self.last_action_id()@,
            store.history() == Seq::<Record<State, Action>>::empty(),
            store.initial_state() == *store.state(),
            cloned(*self.state(), *store.state()),
            cloned(self.spec_service(), store.spec_service()),
            store.pending() == Seq::<Action>::empty(),
    {
        let state = self.state.clone();
        let ghost initial = state.inner;
        proof {
            lemma_chained_empty::<State, Action>(self.last_action_id@, self.anchor());
            lemma_reduced_empty::<State, Action, R>(initial, self.reducer);
            reveal(framed);
        }
        Self {
            reducer: self.reducer,
            effects: self.effects,
            service: self.service.clone(),
            state,
            initial_monotonic_time: self.initial_monotonic_time,
            initial_time: self.initial_time,
            recursion_depth: self.recursion_depth,
            last_action_id: self.last_action_id,
            pending: Dispatcher::new(),
            history: Ghost(Seq::empty()),
            initial_state: Ghost(initial),
            base_id: Ghost(self.last_action_id@),
        }
    }
}

} // verus!
