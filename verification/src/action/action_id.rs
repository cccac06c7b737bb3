//! The identifier of a dispatched action.

use crate::time::duration_nanos;
use crate::timestamp::Timestamp;
use std::time::Duration;
use vstd::prelude::*;
use vstd::std_specs::convert::FromSpecImpl;

verus! {

/// Time in nanoseconds from the Unix epoch, used as the identifier of an action.
///
/// Each action has a unique id. If two actions happen at the same time,
/// the id of the second one is increased by one, so that ids stay unique.
#[derive(Debug, Ord, PartialOrd, Eq, PartialEq, Clone, Copy, Structural)]
pub struct ActionId(pub(crate) Timestamp);

impl View for ActionId {
    type V = u64;

    /// The nanoseconds since the Unix epoch that the id stands for.
    open(crate) spec fn view(&self) -> u64 {
        self.0@
    }
}

/// The larger of two numbers.
pub open spec fn max_u64(a: u64, b: u64) -> u64 {
    if a >= b {
        a
    } else {
        b
    }
}

impl ActionId {
    /// Caller must make sure such action actually exists!
    #[inline(always)]
    pub fn new_unchecked(value: u64) -> (id: Self)
        ensures
            id@ == value,
    {
        Self(Timestamp::new(value))
    }

    /// The id that follows `self` once `time_passed` nanoseconds have gone by:
    /// it lies that far after `self`, and at least one nanosecond after it.
    #[inline(always)]
    pub(crate) fn next(&self, time_passed: u64) -> (id: Self)
        requires
            self@ + max_u64(time_passed, 1) <= u64::MAX,
        ensures
            id@ == self@ + max_u64(time_passed, 1),
    {
        let step: u64 = if time_passed >= 1 {
            time_passed
        } else {
            1
        };
        Self(Timestamp::new(self.0.0 + step))
    }

    /// The time from `other` to `self`; zero where `other` is the later one.
    pub fn duration_since(&self, other: ActionId) -> (d: Duration)
        ensures
            duration_nanos(d) == if self@ >= other@ {
                self@ - other@
            } else {
                0
            },
    {
        match self.0.checked_sub(other.0) {
            Some(d) => d,
            None => Duration::from_nanos(0),
        }
    }
}

impl From<ActionId> for Timestamp {
    #[inline(always)]
    fn from(id: ActionId) -> (t: Timestamp)
        ensures
            t@ == id@,
    {
        id.0
    }
}

impl FromSpecImpl<ActionId> for Timestamp {
    open spec fn obeys_from_spec() -> bool {
        true
    }

    open(crate) spec fn from_spec(id: ActionId) -> Timestamp {
        id.0
    }
}

impl From<ActionId> for u64 {
    #[inline(always)]
    fn from(id: ActionId) -> (nanos: u64) {
        id.0.0
    }
}

impl FromSpecImpl<ActionId> for u64 {
    open spec fn obeys_from_spec() -> bool {
        true
    }

    open spec fn from_spec(id: ActionId) -> u64 {
        id@
    }
}

} // verus!
