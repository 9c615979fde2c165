//! The cache of the connectivity status. It holds at most one snapshot with
//! the time at which it was taken, and serves it while it is younger than
//! thirty seconds. Times are nanoseconds on a clock that the caller reads.

use crate::comms::{comms_status, get_comms_status, CommsStatus, CommsView, ProbeOutputs};
use vstd::prelude::*;

verus! {

/// How long a snapshot is served, in nanoseconds: thirty seconds.
pub const COMMS_TTL_NANOS: u64 = 30_000_000_000;

/// What the cache holds: the time of the snapshot, and the snapshot.
pub struct CachedView {
    pub captured_at: u64,
    pub value: CommsView,
}

/// The time that has passed at `now` since `captured_at`; none where the
/// clock reads earlier than it did then.
pub open spec fn elapsed(captured_at: u64, now: u64) -> int {
    if now >= captured_at {
        now - captured_at
    } else {
        0
    }
}

/// What a cache serves at `now`: the snapshot it holds, if it holds one that
/// is younger than thirty seconds.
pub open spec fn served(cache: Option<CachedView>, now: u64) -> Option<CommsView> {
    match cache {
        Some(entry) => if elapsed(entry.captured_at, now) < COMMS_TTL_NANOS {
            Some(entry.value)
        } else {
            None
        },
        None => None,
    }
}

/// What a cache holds after `value` was stored in it at `now`, whatever it
/// held before.
pub open spec fn stored(now: u64, value: CommsView) -> Option<CachedView> {
    Some(CachedView { captured_at: now, value })
}

struct CacheEntry {
    captured_at: u64,
    value: CommsStatus,
}

/// The cache of the connectivity status.
pub struct CommsCache {
    entry: Option<CacheEntry>,
}

impl View for CommsCache {
    type V = Option<CachedView>;

    closed spec fn view(&self) -> Option<CachedView> {
        match self.entry {
            Some(e) => Some(CachedView { captured_at: e.captured_at, value: e.value@ }),
            None => None,
        }
    }
}

impl CommsCache {
    /// A cache that holds nothing.
    pub fn new() -> (cache: Self)
        ensures
            cache@ is None,
    {
        CommsCache { entry: None }
    }

    /// The time of the snapshot that the cache holds.
    pub fn captured_at(&self) -> (t: Option<u64>)
        ensures
            t == match self@ {
                Some(entry) => Some(entry.captured_at),
                None => None,
            },
    {
        match &self.entry {
            Some(e) => Some(e.captured_at),
            None => None,
        }
    }

    /// A copy of the snapshot that the cache holds, if it is younger than
    /// thirty seconds at `now`. `None` tells the caller to run the probes
    /// and to hand their answers to `refresh`.
    pub fn lookup(&self, now: u64) -> (hit: Option<CommsStatus>)
        ensures
            match hit {
                Some(status) => served(self@, now) == Some(status@),
                None => served(self@, now) is None,
            },
    {
        match &self.entry {
            Some(e) => {
                let age: u64 = if now >= e.captured_at {
                    now - e.captured_at
                } else {
                    0
                };
                if age < COMMS_TTL_NANOS {
                    Some(e.value.clone())
                } else {
                    None
                }
            },
            None => None,
        }
    }

    /// Replaces what the cache holds by `status`, taken at `now`.
    pub fn store(&mut self, now: u64, status: CommsStatus)
        ensures
            final(self)@ == stored(now, status@),
    {
        self.entry = Some(CacheEntry { captured_at: now, value: status });
    }

    /// Puts a snapshot together from the probes' answers, stores it as taken
    /// at `now`, and returns it.
    pub fn refresh(&mut self, now: u64, raw: &ProbeOutputs) -> (status: CommsStatus)
        ensures
            status@ == comms_status(*raw),
            final(self)@ == stored(now, comms_status(*raw)),
    {
        let status = get_comms_status(raw);
        self.store(now, status.clone());
        status
    }
}

/// A snapshot that was stored is served unchanged at every time less than
/// thirty seconds later, so the probes are not run again.
pub proof fn lemma_served_while_fresh(captured_at: u64, value: CommsView, now: u64)
    requires
        elapsed(captured_at, now) < COMMS_TTL_NANOS,
    ensures
        served(stored(captured_at, value), now) == Some(value),
{
}

/// Thirty seconds after a snapshot was stored, and later, it is served no
/// more. A refresh then stores one new snapshot, whose time is that of the
/// refresh and later than the time of the snapshot it replaces.
pub proof fn lemma_refreshed_when_stale(captured_at: u64, value: CommsView, now: u64, fresh: CommsView)
    requires
        now - captured_at >= COMMS_TTL_NANOS,
    ensures
        served(stored(captured_at, value), now) is None,
        stored(now, fresh)->0.captured_at == now,
        stored(now, fresh)->0.captured_at > captured_at,
        served(stored(now, fresh), now) == Some(fresh),
{
}

} // verus!
