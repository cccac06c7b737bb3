//! A deterministic, single-threaded state-machine runtime.
//!
//! Actions are applied to a state in two phases: a reducer updates the state
//! and may enqueue follow-up actions, then effects run and may dispatch further
//! actions directly. Every processed action receives a unique, strictly
//! increasing identifier that doubles as its timestamp.
//!
//! The [`Store`] runs this protocol. What it has dispatched it keeps on
//! record, for specifications only: [`history`] says what holds of that
//! record, whatever reducer, effects, clock and actions the store is used
//! with.

pub mod time;

pub mod instant;
pub use instant::{DriftClock, Instant};

pub mod timestamp;
pub use timestamp::Timestamp;

pub mod action;
pub use action::{ActionId, ActionMeta, ActionWithMeta, EnablingCondition, RecursionDepth};

pub mod action_queue;
pub use action_queue::ActionQueue;

pub mod callback;
pub use callback::{AnyAction, Callback};

pub mod dispatcher;
pub use dispatcher::Dispatcher;

pub mod history;

pub mod reducer;
pub use reducer::Reducer;

pub mod effects;
pub use effects::Effects;

pub mod service;
pub use service::{Service, TimeService};

pub mod store;
pub use store::{monotonic_to_time, ClockAnchor, StateWrapper, Store};

pub mod sub_store;
pub use sub_store::SubStore;
