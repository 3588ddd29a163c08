use crate::clock::duration_nanos;
use std::time::Duration;
use vstd::prelude::*;

verus! {

/// The time-to-live of a cache that was given none, in seconds.
pub const DEFAULT_TTL: u64 = 30;

/// What becomes of an entry that is found expired.
#[derive(Clone, Copy, PartialEq, Eq, Structural, Debug)]
pub enum TtlRevalidationAction {
    /// The entry is dropped.
    Expire,
    /// Reserved for caches that refresh an expired entry in place; no cache
    /// acts on it yet.
    Revalidate,
}

/// The policy of a cache: how long entries live and what happens when their
/// time is up.
pub struct TtlSettings {
    action: TtlRevalidationAction,
    duration: Duration,
}

impl TtlSettings {
    /// The configured action.
    pub closed spec fn spec_action(&self) -> TtlRevalidationAction {
        self.action
    }

    /// The configured time-to-live.
    pub closed spec fn spec_duration(&self) -> Duration {
        self.duration
    }

    /// Settings with the given action and time-to-live.
    pub fn new(action: TtlRevalidationAction, duration: Duration) -> (settings: Self)
        ensures
            settings.spec_action() == action,
            settings.spec_duration() == duration,
    {
        Self { action, duration }
    }

    /// The configured action.
    pub fn action(&self) -> (action: &TtlRevalidationAction)
        ensures
            *action == self.spec_action(),
    {
        &self.action
    }

    /// The configured time-to-live.
    pub fn duration(&self) -> (duration: &Duration)
        ensures
            *duration == self.spec_duration(),
    {
        &self.duration
    }

    /// Takes the settings apart.
    pub fn split(self) -> (parts: (TtlRevalidationAction, Duration))
        ensures
            parts.0 == self.spec_action(),
            parts.1 == self.spec_duration(),
    {
        (self.action, self.duration)
    }
}

impl Default for TtlRevalidationAction {
    fn default() -> (action: Self)
        ensures
            action == TtlRevalidationAction::Expire,
    {
        TtlRevalidationAction::Expire
    }
}

impl Default for TtlSettings {
    fn default() -> (settings: Self)
        ensures
            settings.spec_action() == TtlRevalidationAction::Expire,
            duration_nanos(settings.spec_duration()) == DEFAULT_TTL * 1_000_000_000,
    {
        Self { action: TtlRevalidationAction::Expire, duration: Duration::from_secs(DEFAULT_TTL) }
    }
}

} // verus!
