//! Monotonic time, and its reconciliation with the wall clock.
//!
//! An [`Instant`] is a reading of a monotonic clock, held as the nanoseconds
//! that have passed since an origin that the embedding program fixes once.
//! A [`DriftClock`] turns raw readings of a monotonic source that may stall
//! (while the process or the machine is suspended) into instants that keep up
//! with the wall clock.

use crate::time::duration_nanos;
use crate::timestamp::Timestamp;
use std::ops::{Add, Sub};
use std::time::Duration;
use vstd::prelude::*;
use vstd::std_specs::convert::FromSpecImpl;
use vstd::std_specs::ops::{AddSpecImpl, SubSpecImpl};

verus! {

/// A reading of a monotonic clock.
#[derive(Copy, Clone, Debug, Ord, PartialOrd, Eq, PartialEq, Structural)]
pub struct Instant {
    pub(crate) nanos: u64,
}

impl View for Instant {
    type V = u64;

    /// The nanoseconds between the clock's origin and this instant.
    open(crate) spec fn view(&self) -> u64 {
        self.nanos
    }
}

/// `a - b`, or zero where `b` is the larger one.
pub open spec fn saturating_diff(a: u64, b: u64) -> u64 {
    if a >= b {
        (a - b) as u64
    } else {
        0
    }
}

/// `a + b`, or the largest number of 64 bits where the sum is beyond it.
pub open spec fn saturating_sum(a: u64, b: u64) -> u64 {
    if a + b <= u64::MAX {
        (a + b) as u64
    } else {
        u64::MAX
    }
}

impl Instant {
    /// The time from `earlier` to `self`; zero where `earlier` is the later one.
    pub fn duration_since(&self, earlier: Instant) -> (d: Duration)
        ensures
            duration_nanos(d) == saturating_diff(self@, earlier@),
    {
        *self - earlier
    }

    /// The time that has passed since `self`, where `now` is the current
    /// instant; zero where `self` is the later one.
    pub fn elapsed(&self, now: Instant) -> (d: Duration)
        ensures
            duration_nanos(d) == saturating_diff(now@, self@),
    {
        now - *self
    }

    /// The time from `earlier` to `self`, or `None` where `earlier` is the
    /// later one.
    pub fn checked_duration_since(&self, earlier: Instant) -> (d: Option<Duration>)
        ensures
            d is Some <==> earlier@ <= self@,
            d is Some ==> duration_nanos(d->0) == self@ - earlier@,
    {
        if self.nanos < earlier.nanos {
            None
        } else {
            Some(self.duration_since(earlier))
        }
    }

    /// The time from `earlier` to `self`; zero where `earlier` is the later one.
    pub fn saturating_duration_since(&self, earlier: Instant) -> (d: Duration)
        ensures
            duration_nanos(d) == saturating_diff(self@, earlier@),
    {
        match self.checked_duration_since(earlier) {
            Some(d) => d,
            None => Duration::from_nanos(0),
        }
    }

    /// The instant that lies `duration` after `self`.
    pub fn checked_add(&self, duration: Duration) -> (t: Option<Instant>)
        requires
            self@ + duration_nanos(duration) <= u64::MAX,
        ensures
            t is Some,
            (t->0)@ == self@ + duration_nanos(duration),
    {
        Some(*self + duration)
    }

    /// The instant that lies `duration` before `self`.
    pub fn checked_sub(&self, duration: Duration) -> (t: Option<Instant>)
        requires
            duration_nanos(duration) <= self@,
        ensures
            t is Some,
            (t->0)@ == self@ - duration_nanos(duration),
    {
        Some(*self - duration)
    }
}

impl From<u64> for Instant {
    /// The instant that lies `nanos` nanoseconds after the clock's origin.
    fn from(nanos: u64) -> (t: Instant)
        ensures
            t@ == nanos,
    {
        Instant { nanos }
    }
}

impl FromSpecImpl<u64> for Instant {
    open spec fn obeys_from_spec() -> bool {
        true
    }

    open(crate) spec fn from_spec(nanos: u64) -> Instant {
        Instant { nanos }
    }
}

impl Add<Duration> for Instant {
    type Output = Instant;

    fn add(self, other: Duration) -> (t: Instant)
        ensures
            t@ == self@ + duration_nanos(other),
    {
        let nanos: u128 = other.as_nanos();
        Instant { nanos: self.nanos + nanos as u64 }
    }
}

impl AddSpecImpl<Duration> for Instant {
    open spec fn obeys_add_spec() -> bool {
        true
    }

    open spec fn add_req(self, other: Duration) -> bool {
        self@ + duration_nanos(other) <= u64::MAX
    }

    open(crate) spec fn add_spec(self, other: Duration) -> Instant {
        Instant { nanos: (self@ + duration_nanos(other)) as u64 }
    }
}

impl Sub<Duration> for Instant {
    type Output = Instant;

    fn sub(self, other: Duration) -> (t: Instant)
        ensures
            t@ == self@ - duration_nanos(other),
    {
        let nanos: u128 = other.as_nanos();
        Instant { nanos: self.nanos - nanos as u64 }
    }
}

impl SubSpecImpl<Duration> for Instant {
    open spec fn obeys_sub_spec() -> bool {
        true
    }

    open spec fn sub_req(self, other: Duration) -> bool {
        duration_nanos(other) <= self@
    }

    open(crate) spec fn sub_spec(self, other: Duration) -> Instant {
        Instant { nanos: (self@ - duration_nanos(other)) as u64 }
    }
}

impl Sub<Instant> for Instant {
    type Output = Duration;

    fn sub(self, other: Instant) -> (d: Duration)
        ensures
            duration_nanos(d) == saturating_diff(self@, other@),
    {
        Duration::from_nanos(self.nanos.saturating_sub(other.nanos))
    }
}

impl SubSpecImpl<Instant> for Instant {
    open spec fn obeys_sub_spec() -> bool {
        false
    }

    open spec fn sub_req(self, other: Instant) -> bool {
        true
    }

    open spec fn sub_spec(self, other: Instant) -> Duration {
        arbitrary()
    }
}

/// The state of a monotonic clock that is corrected against the wall clock.
///
/// It holds the first reading of each clock and the drift: the time by which
/// the monotonic source has fallen behind the wall clock so far.
#[derive(Copy, Clone, Debug, Eq, PartialEq, Structural)]
pub struct DriftClock {
    pub(crate) initial_sys_time: Timestamp,
    pub(crate) initial_monotonic: Instant,
    pub(crate) drift: u64,
}

/// What a [`DriftClock`] holds, as plain numbers of nanoseconds.
pub struct DriftClockView {
    /// The wall clock at the first reading, since the Unix epoch.
    pub initial_sys_time: u64,
    /// The monotonic source at the first reading.
    pub initial_monotonic: u64,
    /// The correction that is added to every reading of the monotonic source.
    pub drift: u64,
}

impl View for DriftClock {
    type V = DriftClockView;

    open(crate) spec fn view(&self) -> DriftClockView {
        DriftClockView {
            initial_sys_time: self.initial_sys_time@,
            initial_monotonic: self.initial_monotonic@,
            drift: self.drift,
        }
    }
}

impl DriftClockView {
    /// The drift after a pair of readings: the old drift, or the time by which
    /// the wall clock has advanced beyond the monotonic source since the first
    /// readings, whichever is larger.
    pub open spec fn drift_after(self, sys_now: u64, monotonic_now: u64) -> u64 {
        let sys_passed = saturating_diff(sys_now, self.initial_sys_time);
        let monotonic_passed = saturating_diff(monotonic_now, self.initial_monotonic);
        if sys_passed > monotonic_passed + self.drift {
            (sys_passed - monotonic_passed) as u64
        } else {
            self.drift
        }
    }

    /// The corrected instant for a pair of readings.
    pub open spec fn instant_at(self, sys_now: u64, monotonic_now: u64) -> u64 {
        saturating_sum(monotonic_now, self.drift_after(sys_now, monotonic_now))
    }
}

impl DriftClock {
    /// A clock that starts at the given first readings of the wall clock and
    /// of the monotonic source, with no drift.
    pub fn new(sys_now: Timestamp, monotonic_now: Instant) -> (clock: Self)
        ensures
            clock@ == (DriftClockView {
                initial_sys_time: sys_now@,
                initial_monotonic: monotonic_now@,
                drift: 0,
            }),
    {
        Self { initial_sys_time: sys_now, initial_monotonic: monotonic_now, drift: 0 }
    }

    /// The current instant, given a reading of the wall clock and one of the
    /// monotonic source.
    ///
    /// Where the wall clock has advanced further since the first readings than
    /// the monotonic source and the drift together, the source was suspended
    /// meanwhile: the drift grows to make up for it. The result is the
    /// monotonic reading plus the drift.
    pub fn now(&mut self, sys_now: Timestamp, monotonic_now: Instant) -> (t: Instant)
        ensures
            t@ == old(self)@.instant_at(sys_now@, monotonic_now@),
            final(self)@ == (DriftClockView {
                drift: old(self)@.drift_after(sys_now@, monotonic_now@),
                ..old(self)@
            }),
    {
        let sys_passed: u64 = sys_now.0.saturating_sub(self.initial_sys_time.0);
        let monotonic_passed: u64 = monotonic_now.nanos.saturating_sub(self.initial_monotonic.nanos);
        if sys_passed as u128 > monotonic_passed as u128 + self.drift as u128 {
            self.drift = sys_passed - monotonic_passed;
        }
        Instant { nanos: monotonic_now.nanos.saturating_add(self.drift) }
    }

    /// The drift of a clock never shrinks.
    pub proof fn lemma_drift_grows(clock: DriftClockView, sys_now: u64, monotonic_now: u64)
        ensures
            clock.drift_after(sys_now, monotonic_now) >= clock.drift,
    {
    }

    /// The corrected clock never runs backward: where the monotonic source
    /// does not go back between two pairs of readings, neither does the
    /// corrected instant, whatever the wall clock did.
    pub proof fn lemma_never_decreases(
        clock: DriftClockView,
        sys_first: u64,
        monotonic_first: u64,
        sys_second: u64,
        monotonic_second: u64,
    )
        requires
            monotonic_first <= monotonic_second,
        ensures
            ({
                let after_first = DriftClockView {
                    drift: clock.drift_after(sys_first, monotonic_first),
                    ..clock
                };
                clock.instant_at(sys_first, monotonic_first) <= after_first.instant_at(
                    sys_second,
                    monotonic_second,
                )
            }),
    {
    }

    /// The corrected clock keeps up with the wall clock: counted from the
    /// first monotonic reading, the corrected instant has advanced at least as
    /// far as the wall clock has since its first reading, unless it has
    /// reached the end of its range.
    pub proof fn lemma_reflects_wall_time(clock: DriftClockView, sys_now: u64, monotonic_now: u64)
        requires
            clock.initial_monotonic <= monotonic_now,
        ensures
            ({
                let t = clock.instant_at(sys_now, monotonic_now);
                t == u64::MAX || t - clock.initial_monotonic >= saturating_diff(
                    sys_now,
                    clock.initial_sys_time,
                )
            }),
    {
    }

    /// While the monotonic source stalls, the corrected clock advances with
    /// the wall clock: with the source stuck at its first reading and no drift
    /// before, the corrected instant lies exactly as far after the first
    /// monotonic reading as the wall clock has advanced.
    pub proof fn lemma_stall_follows_wall_clock(clock: DriftClockView, sys_now: u64)
        requires
            clock.drift == 0,
            clock.initial_monotonic + saturating_diff(sys_now, clock.initial_sys_time) <= u64::MAX,
        ensures
            clock.instant_at(sys_now, clock.initial_monotonic) == clock.initial_monotonic
                + saturating_diff(sys_now, clock.initial_sys_time),
    {
    }
}

} // verus!
