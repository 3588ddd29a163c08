//! Time-to-live: nodes that carry an expiration, the settings that decide it,
//! and the cache built on both.

use std::time::Duration;
use vstd::prelude::*;

pub mod cache;
pub mod node;
pub mod settings;

verus! {

/// Whether a stored entry may still be served at a given instant.
#[derive(Clone, Copy, PartialEq, Eq, Structural, Debug)]
pub enum TtlStatus {
    Valid,
    Expired,
}

/// Builders that can be told how long new entries live.
pub trait TtlConfiguration: Sized {
    /// The time-to-live currently configured.
    spec fn ttl(&self) -> Duration;

    /// Sets how long an entry lives once it is written.
    fn duration(self, duration: Duration) -> (configured: Self)
        ensures
            configured.ttl() == duration,
    ;
}

} // verus!
