//! What the store needs of the platform that it runs on.

use crate::instant::Instant;
use vstd::prelude::*;

verus! {

/// The services of the platform.
pub trait Service: TimeService {
}

/// Time service.
pub trait TimeService {
    /// A reading of the platform's monotonic clock. A store that is replayed
    /// or tested gets the readings of a simulated clock here.
    fn monotonic_time(&mut self) -> Instant;
}

} // verus!
