//! What this crate assumes of `std::time`.
//!
//! Nothing in this file is proved. Each item states, for one function of the
//! standard library, the part of its documented behaviour that the rest of the
//! crate relies on.

use std::time::Duration;
use std::time::SystemTime;
use vstd::prelude::*;

verus! {

/// The total number of nanoseconds that a `Duration` holds.
pub uninterp spec fn duration_nanos(d: Duration) -> nat;

/// The point in time that lies `nanos` nanoseconds after `SystemTime::UNIX_EPOCH`.
pub uninterp spec fn unix_epoch_plus(nanos: nat) -> SystemTime;

/// `Duration::from_nanos` builds the duration that holds exactly the given
/// number of nanoseconds.
pub assume_specification[ Duration::from_nanos ](nanos: u64) -> (d: Duration)
    ensures
        duration_nanos(d) == nanos,
;

/// `Duration::as_nanos` returns the total number of nanoseconds of the duration.
pub assume_specification[ Duration::as_nanos ](d: &Duration) -> (nanos: u128)
    ensures
        nanos == duration_nanos(*d),
;

/// The standard library's `SystemTime`. Its values are carried through;
/// nothing is known of what is in them.
#[verifier::external_type_specification]
#[verifier::external_body]
pub struct ExSystemTime(SystemTime);

/// Adds a duration to `SystemTime::UNIX_EPOCH`. The addition of the standard
/// library panics only where the result cannot be represented; a duration
/// that fits 64 bits of nanoseconds (about 584 years) is left in by the
/// precondition, and every platform's system time can represent that range.
#[verifier::external_body]
pub(crate) fn system_time_after_epoch(d: Duration) -> (t: SystemTime)
    requires
        duration_nanos(d) <= u64::MAX,
    ensures
        t == unix_epoch_plus(duration_nanos(d)),
{
    SystemTime::UNIX_EPOCH + d
}

} // verus!
