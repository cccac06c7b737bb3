//! The metadata of a dispatched action.

use crate::action::action_id::ActionId;
use crate::action::action_with_meta::ActionWithMeta;
use crate::time::{duration_nanos, system_time_after_epoch, unix_epoch_plus};
use crate::timestamp::Timestamp;
use std::time::Duration;
use std::time::SystemTime;
use vstd::prelude::*;

verus! {

/// The number of actions whose processing is under way when an action is
/// dispatched.
pub type RecursionDepth = u32;

/// Metadata of an action: its id, the id of the action that was dispatched
/// just before it, and the depth of recursion at which it was dispatched.
#[derive(Debug, Ord, PartialOrd, Eq, PartialEq, Structural)]
pub struct ActionMeta {
    pub(crate) id: ActionId,
    /// Previously applied action.
    pub(crate) prev: ActionId,
    /// Recursion depth of a given action.
    pub(crate) depth: RecursionDepth,
}

/// What an `ActionMeta` holds, as plain numbers.
pub struct ActionMetaView {
    /// The id of the action, in nanoseconds since the Unix epoch.
    pub id: u64,
    /// The id of the action dispatched just before it.
    pub prev: u64,
    /// The depth of recursion at which the action was dispatched.
    pub depth: RecursionDepth,
}

impl View for ActionMeta {
    type V = ActionMetaView;

    open(crate) spec fn view(&self) -> ActionMetaView {
        ActionMetaView { id: self.id@, prev: self.prev@, depth: self.depth }
    }
}

impl Clone for ActionMeta {
    fn clone(&self) -> (m: Self)
        ensures
            m == *self,
    {
        Self { id: self.id, prev: self.prev, depth: self.depth }
    }
}

impl ActionMeta {
    /// The metadata of the action with the given id, dispatched at `depth`
    /// right after the action with the id `prev`. The store makes the
    /// metadata of the actions that it dispatches; who makes one elsewhere
    /// (to read a log back) must make sure such an action actually exists.
    #[inline(always)]
    pub fn new(id: ActionId, prev: ActionId, depth: RecursionDepth) -> (m: Self)
        ensures
            m@ == (ActionMetaView { id: id@, prev: prev@, depth }),
    {
        Self { id, prev, depth }
    }

    /// The metadata of an action at `time` that nothing came before.
    #[inline(always)]
    pub fn zero_custom(time: Timestamp) -> (m: Self)
        ensures
            m@ == (ActionMetaView { id: time@, prev: time@, depth: 0 }),
    {
        Self {
            id: ActionId::new_unchecked(time.into()),
            prev: ActionId::new_unchecked(time.into()),
            depth: 0,
        }
    }

    /// The id of the action.
    #[inline(always)]
    pub fn id(&self) -> (id: ActionId)
        ensures
            id@ == self@.id,
    {
        self.id
    }

    /// Recursion depth of a given action.
    #[inline(always)]
    pub fn depth(&self) -> (depth: RecursionDepth)
        ensures
            depth == self@.depth,
    {
        self.depth
    }

    /// Time of previously applied action.
    #[inline(always)]
    pub fn prev_time(&self) -> (t: Timestamp)
        ensures
            t@ == self@.prev,
    {
        self.prev.into()
    }

    /// Time at which the action was dispatched: its id, as a timestamp.
    #[inline(always)]
    pub fn time(&self) -> (t: Timestamp)
        ensures
            t@ == self@.id,
    {
        self.id.into()
    }

    /// Time at which the action was dispatched, as the system's time.
    #[inline(always)]
    pub fn sys_time(&self) -> (t: SystemTime)
        ensures
            t == unix_epoch_plus(self@.id as nat),
    {
        system_time_after_epoch(self.duration_since_epoch())
    }

    /// Time at which the action was dispatched, in nanoseconds since the
    /// Unix epoch.
    #[inline(always)]
    pub fn time_as_nanos(&self) -> (nanos: u64)
        ensures
            nanos == self@.id,
    {
        self.id.into()
    }

    /// The time from the Unix epoch to the dispatch of the action.
    #[inline(always)]
    pub fn duration_since_epoch(&self) -> (d: Duration)
        ensures
            duration_nanos(d) == self@.id,
    {
        Duration::from_nanos(self.time_as_nanos())
    }

    /// The time from `other` to `self`; zero where `other` is the later one.
    #[inline(always)]
    pub fn duration_since(&self, other: &ActionMeta) -> (d: Duration)
        ensures
            duration_nanos(d) == if self@.id >= other@.id {
                self@.id - other@.id
            } else {
                0
            },
    {
        self.id.duration_since(other.id)
    }

    /// The action together with this metadata, for use in specifications.
    pub open(crate) spec fn spec_with_action<T>(self, action: T) -> ActionWithMeta<T> {
        ActionWithMeta { meta: self, action }
    }

    /// The action together with this metadata.
    #[inline(always)]
    #[verifier::when_used_as_spec(spec_with_action)]
    pub fn with_action<T>(self, action: T) -> (a: ActionWithMeta<T>)
        ensures
            a == self.with_action(action),
            a.meta() == self,
            a.action() == action,
    {
        ActionWithMeta { meta: self, action }
    }
}

} // verus!
