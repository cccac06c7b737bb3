//! Wall-clock time as nanoseconds since the Unix epoch.

use crate::instant::Instant;
use crate::store::{monotonic_to_time, ClockAnchor};
use crate::time::{duration_nanos, system_time_after_epoch, unix_epoch_plus};
use std::ops::Add;
use std::time::Duration;
use std::time::SystemTime;
use vstd::prelude::*;
use vstd::std_specs::convert::FromSpecImpl;
use vstd::std_specs::ops::AddSpecImpl;

verus! {

/// Time in nanoseconds from the Unix epoch.
///
/// Used both as a point in time and as the identifier of an action: 64 bits
/// hold the nanoseconds of about 584 years after 1970-01-01 00:00:00 UTC.
#[derive(Debug, Ord, PartialOrd, Eq, PartialEq, Clone, Copy, Structural)]
pub struct Timestamp(pub(crate) u64);

impl View for Timestamp {
    type V = u64;

    /// The nanoseconds since the Unix epoch.
    open(crate) spec fn view(&self) -> u64 {
        self.0
    }
}

impl Timestamp {
    /// The timestamp of the given number of nanoseconds, for use in
    /// specifications.
    pub open(crate) spec fn spec_new(nanos_from_unix_epoch: u64) -> Self {
        Self(nanos_from_unix_epoch)
    }

    /// The timestamp of the given number of nanoseconds since the Unix epoch.
    #[inline(always)]
    #[verifier::when_used_as_spec(spec_new)]
    pub fn new(nanos_from_unix_epoch: u64) -> (t: Self)
        ensures
            t == Self::new(nanos_from_unix_epoch),
            t@ == nanos_from_unix_epoch,
    {
        Self(nanos_from_unix_epoch)
    }

    /// The wall-clock time now, where `now` is the current reading of the
    /// monotonic clock and `anchor` ties that clock to the wall clock.
    #[inline(always)]
    pub fn global_now(anchor: &ClockAnchor, now: Instant) -> (t: Self)
        ensures
            t@ == anchor@.time_at(now@),
    {
        Self::new(monotonic_to_time(anchor, now))
    }

    /// The time from `rhs` to `self`, or `None` where `rhs` is the later one.
    pub fn checked_sub(self, rhs: Timestamp) -> (d: Option<Duration>)
        ensures
            d is Some <==> rhs@ <= self@,
            d is Some ==> duration_nanos(d->0) == self@ - rhs@,
    {
        match self.0.checked_sub(rhs.0) {
            Some(nanos) => Some(Duration::from_nanos(nanos)),
            None => None,
        }
    }

    /// The time `other` nanoseconds after `self`, or `None` where that is
    /// beyond the range of a timestamp.
    pub fn checked_add(self, other: u64) -> (t: Option<Timestamp>)
        ensures
            t is Some <==> self@ + other <= u64::MAX,
            t is Some ==> (t->0)@ == self@ + other,
    {
        match self.0.checked_add(other) {
            Some(nanos) => Some(Timestamp(nanos)),
            None => None,
        }
    }
}

impl From<Timestamp> for u64 {
    fn from(t: Timestamp) -> (nanos: u64) {
        t.0
    }
}

impl FromSpecImpl<Timestamp> for u64 {
    open spec fn obeys_from_spec() -> bool {
        true
    }

    open spec fn from_spec(t: Timestamp) -> u64 {
        t@
    }
}

impl From<Timestamp> for SystemTime {
    fn from(value: Timestamp) -> (t: SystemTime) {
        system_time_after_epoch(Duration::from_nanos(value.0))
    }
}

impl FromSpecImpl<Timestamp> for SystemTime {
    open spec fn obeys_from_spec() -> bool {
        true
    }

    open spec fn from_spec(value: Timestamp) -> SystemTime {
        unix_epoch_plus(value@ as nat)
    }
}

impl Add<Timestamp> for Timestamp {
    type Output = Timestamp;

    #[inline]
    fn add(self, other: Timestamp) -> (sum: Timestamp)
        ensures
            sum@ == self@ + other@,
    {
        Timestamp(self.0 + other.0)
    }
}

impl AddSpecImpl<Timestamp> for Timestamp {
    open spec fn obeys_add_spec() -> bool {
        true
    }

    open spec fn add_req(self, other: Timestamp) -> bool {
        self@ + other@ <= u64::MAX
    }

    open(crate) spec fn add_spec(self, other: Timestamp) -> Timestamp {
        Timestamp((self@ + other@) as u64)
    }
}

impl Add<u64> for Timestamp {
    type Output = Timestamp;

    #[inline]
    fn add(self, other: u64) -> (sum: Timestamp)
        ensures
            sum@ == self@ + other,
    {
        Timestamp(self.0 + other)
    }
}

impl AddSpecImpl<u64> for Timestamp {
    open spec fn obeys_add_spec() -> bool {
        true
    }

    open spec fn add_req(self, other: u64) -> bool {
        self@ + other <= u64::MAX
    }

    open(crate) spec fn add_spec(self, other: u64) -> Timestamp {
        Timestamp((self@ + other) as u64)
    }
}

impl Add<Duration> for Timestamp {
    type Output = Timestamp;

    #[inline]
    fn add(self, other: Duration) -> (sum: Timestamp)
        ensures
            sum@ == self@ + duration_nanos(other),
    {
        let nanos: u128 = other.as_nanos();
        Timestamp(self.0 + nanos as u64)
    }
}

impl AddSpecImpl<Duration> for Timestamp {
    open spec fn obeys_add_spec() -> bool {
        true
    }

    open spec fn add_req(self, other: Duration) -> bool {
        self@ + duration_nanos(other) <= u64::MAX
    }

    open(crate) spec fn add_spec(self, other: Duration) -> Timestamp {
        Timestamp((self@ + duration_nanos(other)) as u64)
    }
}

} // verus!
