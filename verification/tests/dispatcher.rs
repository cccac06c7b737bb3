use redux::action_queue::{ActionQueue, AnyAction};
use redux::{AnyAction as ErasedAction, Callback, Dispatcher, EnablingCondition, Timestamp};

#[derive(Clone, Copy, Debug, PartialEq, Eq)]
struct Action(u32);

impl EnablingCondition<u32> for Action {
    fn enabled(&self, state: &u32, time: Timestamp) -> bool {
        self.is_enabled(state, time)
    }

    fn is_enabled(&self, state: &u32, time: Timestamp) -> bool {
        self.0 >= *state && u64::from(time) != 13
    }
}

#[derive(Clone, Copy, Debug, PartialEq, Eq)]
struct Small(u8);

impl From<Small> for Action {
    fn from(small: Small) -> Action {
        Action(small.0 as u32 + 100)
    }
}

impl EnablingCondition<u32> for Small {
    fn enabled(&self, state: &u32, time: Timestamp) -> bool {
        self.is_enabled(state, time)
    }

    fn is_enabled(&self, state: &u32, _time: Timestamp) -> bool {
        self.0 as u32 == *state
    }
}

impl From<ErasedAction> for Action {
    fn from(any: ErasedAction) -> Action {
        match any.0.downcast::<Action>() {
            Ok(action) => *action,
            Err(_) => panic!("not an action"),
        }
    }
}

fn drain(dispatcher: &mut Dispatcher<Action, u32>) -> Vec<Action> {
    let mut out = Vec::new();
    while let Some(action) = dispatcher.pop() {
        out.push(action);
    }
    out
}

#[test]
fn dispatcher_is_first_in_first_out() {
    let mut dispatcher: Dispatcher<Action, u32> = Dispatcher::new();
    assert_eq!(dispatcher.len(), 0);
    assert_eq!(dispatcher.pop(), None);
    dispatcher.push(Action(1));
    dispatcher.push(Small(2));
    dispatcher.push(Action(3));
    assert_eq!(dispatcher.len(), 3);
    assert_eq!(dispatcher.pop(), Some(Action(1)));
    assert_eq!(dispatcher.pop(), Some(Action(102)));
    assert_eq!(dispatcher.len(), 1);
    assert_eq!(dispatcher.pop(), Some(Action(3)));
    assert_eq!(dispatcher.pop(), None);
}

#[test]
fn dispatcher_pushes_only_what_is_enabled() {
    let mut dispatcher: Dispatcher<Action, u32> = Dispatcher::new();
    assert!(dispatcher.push_if_enabled(Action(5), &5, Timestamp::new(0)));
    assert!(!dispatcher.push_if_enabled(Action(4), &5, Timestamp::new(0)));
    assert!(!dispatcher.push_if_enabled(Action(9), &5, Timestamp::new(13)));
    // The condition of the action as it is handed in counts, not that of
    // the action it is made into.
    assert!(dispatcher.push_if_enabled(Small(7), &7, Timestamp::new(13)));
    assert!(!dispatcher.push_if_enabled(Small(7), &8, Timestamp::new(0)));
    assert_eq!(drain(&mut dispatcher), vec![Action(5), Action(107)]);
}

#[test]
fn dispatcher_takes_another_queue_in_front() {
    let mut pending: Dispatcher<Action, u32> = Dispatcher::new();
    pending.push(Action(6));
    let mut local: Dispatcher<Action, u32> = Dispatcher::new();
    local.push(Action(4));
    local.push(Action(5));
    pending.push_front(local);
    assert_eq!(pending.len(), 3);
    pending.push(Action(7));
    assert_eq!(drain(&mut pending), vec![Action(4), Action(5), Action(6), Action(7)]);

    let mut pending: Dispatcher<Action, u32> = Dispatcher::new();
    pending.push(Action(1));
    pending.push_front(Dispatcher::new());
    assert_eq!(drain(&mut pending), vec![Action(1)]);
    let mut local: Dispatcher<Action, u32> = Dispatcher::new();
    local.push(Action(2));
    pending.push_front(local);
    assert_eq!(drain(&mut pending), vec![Action(2)]);
}

fn double(n: u32) -> ErasedAction {
    ErasedAction(Box::new(Action(n * 2)))
}

#[test]
fn dispatcher_pushes_what_a_callback_makes() {
    let mut dispatcher: Dispatcher<Action, u32> = Dispatcher::new();
    dispatcher.push(Action(1));
    let callback = Callback::new("double", double as fn(u32) -> ErasedAction);
    dispatcher.push_callback(callback, 21);
    assert_eq!(drain(&mut dispatcher), vec![Action(1), Action(42)]);
}

#[test]
fn callback_calls_its_function() {
    let callback = Callback::new("double", double as fn(u32) -> ErasedAction);
    assert_eq!(callback.fun_name, "double");
    let action: Action = callback.call(4);
    assert_eq!(action, Action(8));
    let again: Action = callback.call(5);
    assert_eq!(again, Action(10));
}

fn triple(n: u32) -> ErasedAction {
    ErasedAction(Box::new(Action(n * 3)))
}

type Function = fn(u32) -> ErasedAction;

fn by_name(name: &str) -> Callback<u32, Function> {
    Callback::from_parts(None, std::borrow::Cow::Owned(String::from(name)))
}

#[test]
fn callback_by_name_holds_the_name_only() {
    let callback = by_name("double");
    assert_eq!(callback.fun_name, "double");
    assert!(!callback.has_function());
    let (function, name) = callback.into_parts();
    assert!(function.is_none());
    assert_eq!(name, "double");
    assert!(Callback::new("double", double as Function).has_function());
}

#[test]
fn callback_is_found_by_its_name() {
    let registry = vec![
        by_name("triple"),
        Callback::new("double", double as Function),
        Callback::new("triple", triple as Function),
        Callback::new("triple", double as Function),
    ];
    let wanted = by_name("triple");
    let found = wanted.resolve(&registry);
    assert!(found.is_some());
    let action: Option<Action> = found.map(|callback| callback.call(5));
    assert_eq!(action, Some(Action(15)));
    assert!(by_name("quadruple").resolve(&registry).is_none());
    let empty: Vec<Callback<u32, Function>> = Vec::new();
    assert!(wanted.resolve(&empty).is_none());
    // A callback that holds its function needs no registry.
    let own = Callback::new("quadruple", double as Function);
    let action: Option<Action> = own.resolve(&registry).map(|callback| callback.call(5));
    assert_eq!(action, Some(Action(10)));
    assert_eq!(own.clone(), own);
}

fn drain_queue(queue: &mut ActionQueue<Action, u32>) -> Vec<Action> {
    let mut out = Vec::new();
    while let Some(action) = queue.pop() {
        out.push(action.convert());
    }
    out
}

#[test]
fn action_queue_is_first_in_first_out() {
    let mut queue: ActionQueue<Action, u32> = ActionQueue::new();
    assert!(queue.pop().is_none());
    queue.push(Action(1));
    queue.push(Small(2));
    queue.push(Action(3));
    assert_eq!(drain_queue(&mut queue), vec![Action(1), Action(102), Action(3)]);
    assert!(queue.pop().is_none());
}

#[test]
fn action_queue_takes_another_queue_in_front() {
    let mut pending: ActionQueue<Action, u32> = ActionQueue::new();
    pending.push(Action(6));
    let mut local: ActionQueue<Action, u32> = ActionQueue::new();
    local.push(Action(4));
    local.push(Action(5));
    pending.push_front(local);
    assert_eq!(drain_queue(&mut pending), vec![Action(4), Action(5), Action(6)]);
}

#[test]
fn action_queue_for_a_part_is_empty() {
    let mut queue: ActionQueue<Action, u32> = ActionQueue::new();
    queue.push(Action(1));
    let mut sub: ActionQueue<Small, u8> = queue.sub_queue();
    assert!(sub.pop().is_none());
    assert_eq!(drain_queue(&mut queue), vec![Action(1)]);
}

#[test]
fn any_action_keeps_condition_and_action() {
    let any: AnyAction<Action, u32> = AnyAction::new(Small(3));
    assert_eq!(any.convert(), Action(103));
    assert!(any.is_enabled(&103, Timestamp::new(0)));
    assert!(!any.is_enabled(&104, Timestamp::new(0)));
    assert!(!any.is_enabled(&0, Timestamp::new(13)));
}
