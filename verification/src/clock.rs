//! A monotonic clock that reads in nanoseconds.

use vstd::prelude::*;
use std::time::Instant;

verus! {

/// `std::time::Instant`, a reading of the monotonic clock, of which the
/// library sees nothing.
#[verifier::external_type_specification]
#[verifier::external_body]
pub struct ExInstant(Instant);

/// A clock that counts from the moment it was started.
pub struct Clock {
    origin: Instant,
}

impl Clock {
    /// Starts a clock. `Instant::now` reads the system's monotonic clock;
    /// nothing is promised of what it reads.
    #[verifier::external_body]
    pub(crate) fn start() -> Clock {
        Clock { origin: Instant::now() }
    }

    /// The nanoseconds that have passed since the clock was started.
    /// `Instant::elapsed` reads the system's monotonic clock; nothing is
    /// promised of what it reads.
    #[verifier::external_body]
    pub(crate) fn elapsed_nanos(&self) -> u128 {
        self.origin.elapsed().as_nanos()
    }
}

} // verus!
