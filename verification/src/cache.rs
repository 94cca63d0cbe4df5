//! Freshness of the cached rate document.

use vstd::prelude::*;

verus! {

/// The age, in seconds, from which a cached document is stale.
pub const MAX_AGE: u64 = 3600;

/// What is known of the cache file.
#[derive(Clone, Copy, Debug, PartialEq, Eq, Structural)]
pub enum CacheState {
    /// There is no cache file.
    Missing,
    /// The file is there, but it cannot be opened or described.
    Unreadable,
    /// The file was last modified at this time, in seconds since the epoch.
    Modified(u64),
}

/// A cached document is fresh while it is younger than an hour. A file that
/// is missing or cannot be read is never fresh; one whose time lies after
/// `now` has no age yet and is fresh.
pub open spec fn fresh(state: CacheState, now: u64) -> bool {
    match state {
        CacheState::Modified(at) => now - at < MAX_AGE,
        _ => false,
    }
}

/// Whether the cached document can be used as it is; `now` is the current
/// time in seconds since the epoch. A stale cache is to be downloaded anew.
pub fn is_fresh(state: CacheState, now: u64) -> (yes: bool)
    ensures
        yes == fresh(state, now),
{
    match state {
        CacheState::Modified(at) => at > now || now - at < MAX_AGE,
        _ => false,
    }
}

} // verus!
