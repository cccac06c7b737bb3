use redux::{
    store::next_action_id, ActionId, ActionWithMeta, AnyAction, Callback, Dispatcher, Effects,
    EnablingCondition, Instant, Reducer, Store, SubStore, TimeService, Timestamp,
};

/// An action is a tag. What it does is written in the state.
#[derive(Clone, Copy, Debug, PartialEq, Eq)]
struct Action(u32);

const A: Action = Action(1);
const B: Action = Action(2);
const B1: Action = Action(3);
const X: Action = Action(4);
const Y: Action = Action(5);
const Z: Action = Action(6);
const P: Action = Action(7);

#[derive(Clone, Debug, Default, PartialEq, Eq)]
struct State {
    /// How often a reducer ran.
    count: u32,
    /// `(a, list)`: the reducer of `a` queues `list`.
    queues: Vec<(Action, Vec<Action>)>,
    /// `(a, list)`: the effects of `a` dispatch `list` directly.
    dispatches: Vec<(Action, Vec<Action>)>,
    /// `(a, b)`: the reducer of `a` disables `b`.
    disables: Vec<(Action, Action)>,
    /// The actions that are disabled now.
    disabled: Vec<Action>,
    /// Each action is reduced at most this often (0: no limit).
    limit: u32,
}

impl EnablingCondition<State> for Action {
    fn enabled(&self, state: &State, time: Timestamp) -> bool {
        self.is_enabled(state, time)
    }

    fn is_enabled(&self, state: &State, _time: Timestamp) -> bool {
        !state.disabled.contains(self) && (state.limit == 0 || state.count < state.limit)
    }
}

#[derive(Clone, Copy, Debug, PartialEq, Eq)]
struct Entry {
    id: u64,
    prev: u64,
    depth: u32,
    action: Action,
}

/// A clock that is read from a list, and the log that the effects write.
#[derive(Clone, Debug, Default)]
struct Service {
    readings: Vec<u64>,
    read: usize,
    log: Vec<Entry>,
    /// The result of each direct dispatch that the effects made.
    results: Vec<(Action, bool)>,
    /// The ids seen as `time` by nothing: the state counts at each effect.
    counts: Vec<u32>,
}

impl TimeService for Service {
    fn monotonic_time(&mut self) -> Instant {
        let reading = if self.readings.is_empty() {
            0
        } else {
            self.readings[self.read.min(self.readings.len() - 1)]
        };
        self.read += 1;
        Instant::from(reading)
    }
}

#[derive(Clone, Copy)]
struct Machine;

impl Reducer<State, Action> for Machine {
    fn reduce(
        &self,
        state: &mut State,
        action: &ActionWithMeta<Action>,
        dispatcher: &mut Dispatcher<Action, State>,
    ) {
        state.count += 1;
        let tag = *action.action();
        let queued: Vec<Action> =
            state.queues.iter().filter(|(a, _)| *a == tag).flat_map(|(_, l)| l.clone()).collect();
        for next in queued {
            dispatcher.push(next);
        }
        let disabled: Vec<Action> =
            state.disables.iter().filter(|(a, _)| *a == tag).map(|(_, b)| *b).collect();
        state.disabled.extend(disabled);
    }
}

impl Effects<State, Service, Action, Machine> for Machine {
    fn effects(
        &self,
        store: &mut Store<State, Service, Action, Machine, Machine>,
        action: ActionWithMeta<Action>,
    ) {
        let count = store.state().count;
        let (tag, meta) = action.split();
        store.service().counts.push(count);
        store.service().log.push(Entry {
            id: meta.time_as_nanos(),
            prev: meta.prev_time().into(),
            depth: meta.depth(),
            action: tag,
        });
        let direct: Vec<Action> = store
            .state()
            .dispatches
            .iter()
            .filter(|(a, _)| *a == tag)
            .flat_map(|(_, l)| l.clone())
            .collect();
        for next in direct {
            let done = store.dispatch(next);
            store.service().results.push((next, done));
        }
    }
}

type TestStore = Store<State, Service, Action, Machine, Machine>;

fn store_with(state: State, readings: Vec<u64>, initial_time: u64) -> TestStore {
    let service = Service { readings, ..Service::default() };
    Store::new(Machine, Machine, service, Timestamp::new(initial_time), state)
}

fn order(store: &mut TestStore) -> Vec<Action> {
    store.service().log.iter().map(|e| e.action).collect()
}

#[test]
fn ids_grow_strictly_while_the_clock_stands_still() {
    let mut store = store_with(State::default(), vec![0], 1_000);
    for _ in 0..50 {
        assert!(store.dispatch(A));
    }
    let log = store.service().log.clone();
    assert_eq!(log.len(), 50);
    for (i, entry) in log.iter().enumerate() {
        assert_eq!(entry.id, 1_001 + i as u64);
    }
    for pair in log.windows(2) {
        assert!(pair[0].id < pair[1].id);
    }
}

#[test]
fn ids_follow_the_clock_where_it_advances() {
    // The first reading is the anchor of the monotonic clock.
    let mut store = store_with(State::default(), vec![100, 600, 600, 605, 50, 2_000], 1_000);
    for _ in 0..5 {
        assert!(store.dispatch(A));
    }
    let ids: Vec<u64> = store.service().log.iter().map(|e| e.id).collect();
    // 1000 + (600 - 100), then one more, then the clock again, then a
    // reading before the anchor (no time passed), then the clock.
    assert_eq!(ids, vec![1_500, 1_501, 1_505, 1_506, 2_900]);
}

#[test]
fn next_action_id_is_the_later_of_clock_and_successor() {
    let prev = ActionId::new_unchecked(10);
    assert_eq!(next_action_id(prev, Timestamp::new(3)), ActionId::new_unchecked(11));
    assert_eq!(next_action_id(prev, Timestamp::new(10)), ActionId::new_unchecked(11));
    assert_eq!(next_action_id(prev, Timestamp::new(11)), ActionId::new_unchecked(11));
    assert_eq!(next_action_id(prev, Timestamp::new(12)), ActionId::new_unchecked(12));
    assert_eq!(
        next_action_id(ActionId::new_unchecked(u64::MAX - 1), Timestamp::new(0)),
        ActionId::new_unchecked(u64::MAX)
    );
}

#[test]
fn a_disabled_action_changes_nothing() {
    let state = State { disabled: vec![B], ..State::default() };
    let mut store = store_with(state.clone(), vec![0], 1_000);
    assert!(store.dispatch(A));
    let state_before = store.state().clone();
    let reads_before = store.service().read;
    assert!(!store.dispatch(B));
    assert_eq!(*store.state(), state_before);
    assert_eq!(store.service().read, reads_before);
    assert_eq!(order(&mut store), vec![A]);
    // No id was used up: the next action gets the id right after the first.
    assert!(store.dispatch(A));
    let log = store.service().log.clone();
    assert_eq!(log[0].id, 1_001);
    assert_eq!(log[1].id, 1_002);
    assert_eq!(log[1].prev, 1_001);
}

#[test]
fn queued_actions_run_before_those_that_were_pending() {
    // P queues [A, Z]; A queues [X, Y]. When A is processed, Z is pending.
    let state = State {
        queues: vec![(P, vec![A, Z]), (A, vec![X, Y])],
        ..State::default()
    };
    let mut store = store_with(state, vec![0], 0);
    assert!(store.dispatch(P));
    assert_eq!(order(&mut store), vec![P, A, X, Y, Z]);
}

#[test]
fn queued_actions_of_a_direct_dispatch_run_before_the_outer_queue() {
    // P queues [Z] and its effects dispatch A, which queues [X, Y].
    let state = State {
        queues: vec![(P, vec![Z]), (A, vec![X, Y])],
        dispatches: vec![(P, vec![A])],
        ..State::default()
    };
    let mut store = store_with(state, vec![0], 0);
    assert!(store.dispatch(P));
    assert_eq!(order(&mut store), vec![P, A, X, Y, Z]);
}

#[test]
fn a_direct_dispatch_and_its_cascade_come_before_the_queue() {
    // A queues [X, Y]; its effects dispatch B, which queues [B1].
    let state = State {
        queues: vec![(A, vec![X, Y]), (B, vec![B1])],
        dispatches: vec![(A, vec![B])],
        ..State::default()
    };
    let mut store = store_with(state, vec![0], 500);
    assert!(store.dispatch(A));
    assert_eq!(order(&mut store), vec![A, B, B1, X, Y]);
    let log = store.service().log.clone();
    let ids: Vec<u64> = log.iter().map(|e| e.id).collect();
    assert_eq!(ids, vec![501, 502, 503, 504, 505]);
    assert_eq!(store.service().results, vec![(B, true)]);
}

#[test]
fn predecessors_lead_back_through_the_log() {
    let state = State {
        queues: vec![(A, vec![X, Y]), (B, vec![B1])],
        dispatches: vec![(A, vec![B]), (Y, vec![Z])],
        ..State::default()
    };
    let mut store = store_with(state, vec![0, 0, 40, 40, 90], 1_000);
    assert!(store.dispatch(A));
    assert!(store.dispatch(P));
    let log = store.service().log.clone();
    assert_eq!(log.len(), 7);
    assert_eq!(log[0].prev, 1_000);
    let mut back = Vec::new();
    let mut at = log.last().map(|e| e.id);
    while let Some(id) = at {
        let entry = log.iter().find(|e| e.id == id);
        match entry {
            Some(e) => {
                back.push(e.action);
                at = Some(e.prev);
            }
            None => at = None,
        }
    }
    back.reverse();
    let forward: Vec<Action> = log.iter().map(|e| e.action).collect();
    assert_eq!(back, forward);
    assert_eq!(forward, vec![A, B, B1, X, Y, Z, P]);
}

#[test]
fn depth_counts_the_actions_under_way() {
    // A queues [X]; its effects dispatch B, which queues [B1].
    let state = State {
        queues: vec![(A, vec![X]), (B, vec![B1])],
        dispatches: vec![(A, vec![B])],
        ..State::default()
    };
    let mut store = store_with(state, vec![0], 0);
    assert!(store.dispatch(A));
    assert!(store.dispatch(P));
    let depths: Vec<(Action, u32)> =
        store.service().log.iter().map(|e| (e.action, e.depth)).collect();
    assert_eq!(depths, vec![(A, 0), (B, 1), (B1, 2), (X, 1), (P, 0)]);
}

#[test]
fn an_action_disabled_before_its_turn_is_dropped() {
    // A queues [X, Y, Z]; the reducer of X disables Y.
    let state = State {
        queues: vec![(A, vec![X, Y, Z])],
        disables: vec![(X, Y)],
        ..State::default()
    };
    let mut store = store_with(state, vec![0], 0);
    assert!(store.dispatch(A));
    assert_eq!(order(&mut store), vec![A, X, Z]);
    let ids: Vec<u64> = store.service().log.iter().map(|e| e.id).collect();
    assert_eq!(ids, vec![1, 2, 3]);
    assert_eq!(store.state().count, 3);
}

#[test]
fn the_enabling_condition_sees_the_current_state() {
    // Each action may be reduced while the count is below two.
    let state = State {
        queues: vec![(A, vec![X, Y, Z])],
        limit: 2,
        ..State::default()
    };
    let mut store = store_with(state, vec![0], 0);
    assert!(store.dispatch(A));
    assert_eq!(order(&mut store), vec![A, X]);
    assert!(!store.dispatch(A));
    assert_eq!(store.state().count, 2);
}

#[test]
fn effects_see_the_state_that_the_reducer_left() {
    let state = State { queues: vec![(A, vec![X])], ..State::default() };
    let mut store = store_with(state, vec![0], 0);
    assert!(store.dispatch(A));
    assert_eq!(store.service().counts, vec![1, 2]);
}

#[test]
fn a_store_whose_ids_are_used_up_dispatches_nothing() {
    let mut store = store_with(State::default(), vec![0], u64::MAX);
    assert!(!store.dispatch(A));
    assert_eq!(store.state().count, 0);
    assert!(order(&mut store).is_empty());

    let mut store = store_with(State { queues: vec![(A, vec![X])], ..State::default() }, vec![0], u64::MAX - 1);
    assert!(store.dispatch(A));
    // The id of A is the last one there is: X is dropped.
    assert_eq!(order(&mut store), vec![A]);
    assert_eq!(store.service().log[0].id, u64::MAX);
    assert!(!store.dispatch(A));
}

#[test]
fn the_store_converts_monotonic_time_with_its_anchor() {
    let store = store_with(State::default(), vec![100], 1_000);
    assert_eq!(store.monotonic_to_time(Instant::from(100)), 1_000);
    assert_eq!(store.monotonic_to_time(Instant::from(350)), 1_250);
    assert_eq!(store.monotonic_to_time(Instant::from(10)), 1_000);
}

#[test]
fn a_copy_continues_the_ids_at_the_same_depth() {
    let state = State { queues: vec![(A, vec![X, Y])], ..State::default() };
    let mut store = store_with(state, vec![0], 0);
    assert!(store.dispatch(A));
    assert_eq!(order(&mut store), vec![A, X, Y]);
    let mut copy = store.clone();
    assert!(copy.dispatch(Z));
    assert_eq!(order(&mut copy), vec![A, X, Y, Z]);
    assert_eq!(copy.service().log[3].depth, 0);
    assert_eq!(copy.service().log[3].id, 4);
    assert_eq!(copy.service().log[3].prev, 3);
}

#[test]
fn a_copy_of_a_store_goes_on_where_the_store_stands() {
    let mut store = store_with(State::default(), vec![0], 1_000);
    assert!(store.dispatch(A));
    let mut copy = store.clone();
    assert_eq!(copy.state().count, 1);
    assert!(copy.dispatch(B));
    assert!(store.dispatch(X));
    assert_eq!(order(&mut copy), vec![A, B]);
    assert_eq!(order(&mut store), vec![A, X]);
    assert_eq!(copy.service().log[1].id, 1_002);
    assert_eq!(copy.service().log[1].prev, 1_001);
    assert_eq!(store.service().log[1].id, 1_002);
}

/// A part of the state, and the actions of that part.
#[derive(Clone, Copy, Debug, PartialEq, Eq)]
struct SubAction(u32);

impl From<SubAction> for Action {
    fn from(action: SubAction) -> Action {
        Action(action.0)
    }
}

#[derive(Clone, Copy, Debug, PartialEq, Eq)]
struct Odd(u32);

impl From<Odd> for SubAction {
    fn from(action: Odd) -> SubAction {
        SubAction(action.0)
    }
}

impl EnablingCondition<u32> for Odd {
    fn enabled(&self, count: &u32, time: Timestamp) -> bool {
        self.is_enabled(count, time)
    }

    fn is_enabled(&self, count: &u32, _time: Timestamp) -> bool {
        count % 2 == 1
    }
}

impl SubStore<State, u32> for TestStore {
    type SubAction = SubAction;
    type Service = Service;

    fn sub_state(&self) -> &u32 {
        &self.state().count
    }

    fn state(&self) -> &u32 {
        &Store::state(self).count
    }

    fn service(&mut self) -> &mut Service {
        Store::service(self)
    }

    fn state_and_service(&mut self) -> (&u32, &mut Service) {
        let (state, service) = Store::state_and_service(self);
        (&state.count, service)
    }

    fn dispatch<T>(&mut self, action: T) -> bool
    where
        T: Into<SubAction> + EnablingCondition<u32>,
    {
        self.sub_dispatch(action)
    }
}

#[test]
fn a_sub_store_checks_the_action_against_its_part_of_the_state() {
    let mut store = store_with(State::default(), vec![0], 0);
    // The count is even: not enabled.
    assert!(!SubStore::dispatch(&mut store, Odd(9)));
    assert!(order(&mut store).is_empty());
    assert!(Store::dispatch(&mut store, A));
    // The count is odd now.
    assert!(store.sub_dispatch(Odd(9)));
    assert_eq!(order(&mut store), vec![A, Action(9)]);
    let ids: Vec<u64> = store.service().log.iter().map(|e| e.id).collect();
    assert_eq!(ids, vec![1, 2]);
    assert_eq!(*SubStore::state(&store), 2);
    let (count, service) = SubStore::state_and_service(&mut store);
    service.results.push((A, *count == 2));
    assert_eq!(SubStore::service(&mut store).results, vec![(A, true)]);
    store.service.results.clear();
    assert!(store.service().results.is_empty());
}

impl From<AnyAction> for Action {
    fn from(any: AnyAction) -> Action {
        match any.0.downcast::<u32>() {
            Ok(tag) => Action(*tag),
            Err(_) => panic!("not a tag"),
        }
    }
}

fn tagged(tag: u32) -> AnyAction {
    AnyAction(Box::new(tag))
}

#[test]
fn a_callback_makes_the_action_that_is_dispatched() {
    let state = State { disabled: vec![B], ..State::default() };
    let mut store = store_with(state, vec![0], 0);
    let callback = Callback::new("tagged", tagged as fn(u32) -> AnyAction);
    assert!(store.dispatch_callback(callback, 4));
    let callback = Callback::new("tagged", tagged as fn(u32) -> AnyAction);
    assert!(!store.dispatch_callback(callback, 2));
    assert_eq!(order(&mut store), vec![X]);
}

#[derive(Clone, Copy, Debug, PartialEq, Eq)]
enum Counter {
    Increment,
    Notify,
}

impl EnablingCondition<u32> for Counter {
    fn enabled(&self, _count: &u32, _time: Timestamp) -> bool {
        true
    }

    fn is_enabled(&self, _count: &u32, _time: Timestamp) -> bool {
        true
    }
}

#[derive(Default)]
struct Tape {
    log: Vec<(Counter, u64)>,
}

impl TimeService for Tape {
    fn monotonic_time(&mut self) -> Instant {
        Instant::from(0)
    }
}

#[derive(Clone, Copy)]
struct CounterMachine;

impl Reducer<u32, Counter> for CounterMachine {
    fn reduce(
        &self,
        count: &mut u32,
        action: &ActionWithMeta<Counter>,
        dispatcher: &mut Dispatcher<Counter, u32>,
    ) {
        if let Counter::Increment = action.action() {
            *count += 1;
            if *count == 1 {
                dispatcher.push(Counter::Notify);
            }
        }
    }
}

impl Effects<u32, Tape, Counter, CounterMachine> for CounterMachine {
    fn effects(
        &self,
        store: &mut Store<u32, Tape, Counter, CounterMachine, CounterMachine>,
        action: ActionWithMeta<Counter>,
    ) {
        let id = action.time_as_nanos();
        let (action, _) = action.split();
        store.service().log.push((action, id));
        if action == Counter::Notify {
            store.dispatch(Counter::Increment);
        }
    }
}

#[test]
fn increment_notify_increment() {
    let mut store = Store::new(CounterMachine, CounterMachine, Tape::default(), Timestamp::new(1_000), 0u32);
    assert!(store.dispatch(Counter::Increment));
    assert_eq!(*store.state(), 2);
    let log = &store.service().log;
    let actions: Vec<Counter> = log.iter().map(|e| e.0).collect();
    assert_eq!(actions, vec![Counter::Increment, Counter::Notify, Counter::Increment]);
    assert!(log[0].1 < log[1].1 && log[1].1 < log[2].1);
    assert_eq!(log[0].1, 1_001);
    assert_eq!(log[2].1, 1_003);
}
