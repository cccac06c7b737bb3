//! An action together with its metadata.

use crate::action::action_id::ActionId;
use crate::action::action_meta::{ActionMeta, RecursionDepth};
use crate::time::{duration_nanos, unix_epoch_plus};
use crate::timestamp::Timestamp;
use std::time::Duration;
use std::time::SystemTime;
use vstd::prelude::*;

verus! {

/// Action with additional metadata like: id.
#[derive(Debug)]
pub struct ActionWithMeta<Action> {
    pub(crate) meta: ActionMeta,
    pub(crate) action: Action,
}

impl<Action: Clone> Clone for ActionWithMeta<Action> {
    fn clone(&self) -> (a: Self)
        ensures
            a.meta() == self.meta(),
            cloned(*self.action(), *a.action()),
    {
        Self { meta: self.meta.clone(), action: self.action.clone() }
    }
}

impl<Action> ActionWithMeta<Action> {
    /// The metadata, for use in specifications.
    pub open(crate) spec fn spec_meta(&self) -> &ActionMeta {
        &self.meta
    }

    /// The action, for use in specifications.
    pub open(crate) spec fn spec_action(&self) -> &Action {
        &self.action
    }

    /// The metadata of the action.
    #[verifier::when_used_as_spec(spec_meta)]
    pub fn meta(&self) -> (m: &ActionMeta)
        ensures
            m == self.meta(),
    {
        &self.meta
    }

    /// The action.
    #[verifier::when_used_as_spec(spec_action)]
    pub fn action(&self) -> (a: &Action)
        ensures
            a == self.action(),
    {
        &self.action
    }

    /// The id of the action.
    #[inline(always)]
    pub fn id(&self) -> (id: ActionId)
        ensures
            id@ == self.meta()@.id,
    {
        self.meta.id()
    }

    /// Recursion depth of a given action.
    #[inline(always)]
    pub fn depth(&self) -> (depth: RecursionDepth)
        ensures
            depth == self.meta()@.depth,
    {
        self.meta.depth()
    }

    /// Time at which the action was dispatched: its id, as a timestamp.
    #[inline(always)]
    pub fn time(&self) -> (t: Timestamp)
        ensures
            t@ == self.meta()@.id,
    {
        self.meta.time()
    }

    /// Time at which the action was dispatched, as the system's time.
    #[inline(always)]
    pub fn sys_time(&self) -> (t: SystemTime)
        ensures
            t == unix_epoch_plus(self.meta()@.id as nat),
    {
        self.meta.sys_time()
    }

    /// Time at which the action was dispatched, in nanoseconds since the
    /// Unix epoch.
    #[inline(always)]
    pub fn time_as_nanos(&self) -> (nanos: u64)
        ensures
            nanos == self.meta()@.id,
    {
        self.meta.time_as_nanos()
    }

    /// The time from the Unix epoch to the dispatch of the action.
    #[inline(always)]
    pub fn duration_since_epoch(&self) -> (d: Duration)
        ensures
            duration_nanos(d) == self.meta()@.id,
    {
        self.meta.duration_since_epoch()
    }

    /// The time from `other` to `self`; zero where `other` is the later one.
    #[inline(always)]
    pub fn duration_since(&self, other: &ActionWithMeta<Action>) -> (d: Duration)
        ensures
            duration_nanos(d) == if self.meta()@.id >= other.meta()@.id {
                self.meta()@.id - other.meta()@.id
            } else {
                0
            },
    {
        self.meta.duration_since(&other.meta)
    }

    /// Splits the struct into a tuple of action and it's metadata.
    #[inline(always)]
    pub fn split(self) -> (parts: (Action, ActionMeta))
        ensures
            parts.0 == self.action(),
            parts.1 == self.meta(),
    {
        (self.action, self.meta)
    }
}

} // verus!
