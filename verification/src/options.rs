//! Options of the mixer client: check caching, report batching and quota
//! caching.

use vstd::prelude::*;

verus! {

/// Options controlling check behavior.
pub struct CheckOptions {
    /// Maximum number of cache entries kept in the cache; 0 disables caching.
    pub num_entries: u32,
    /// If true, a check passes on any network failure.
    pub network_fail_open: bool,
}

impl CheckOptions {
    /// The default check options: 10000 cache entries, failing open.
    pub fn new() -> (o: CheckOptions)
        ensures
            o.num_entries == 10000,
            o.network_fail_open,
    {
        CheckOptions { num_entries: 10000, network_fail_open: true }
    }

    /// Check options with the given number of cache entries, failing open.
    pub fn num_entries(cache_entries: u32) -> (o: CheckOptions)
        ensures
            o.num_entries == cache_entries,
            o.network_fail_open,
    {
        CheckOptions { num_entries: cache_entries, network_fail_open: true }
    }
}

/// Options controlling report batching.
pub struct ReportOptions {
    /// Maximum number of reports batched together.
    pub max_batch_entries: u32,
    /// Maximum milliseconds a report stays in the buffer for batching.
    pub max_batch_time_ms: u32,
}

impl ReportOptions {
    /// The default: batch up to 1000 reports or 1 second.
    pub fn new() -> (o: ReportOptions)
        ensures
            o.max_batch_entries == 1000,
            o.max_batch_time_ms == 1000,
    {
        ReportOptions { max_batch_entries: 1000, max_batch_time_ms: 1000 }
    }
}

/// Options controlling quota behavior.
pub struct QuotaOptions {
    /// Maximum number of cache entries kept in the cache; 0 disables caching.
    pub num_entries: u32,
    /// Maximum milliseconds before an idle cached quota is deleted.
    pub expiration_ms: u32,
}

impl QuotaOptions {
    /// The default quota options: 10000 cache entries, 10 minutes expiration.
    pub fn new() -> (o: QuotaOptions)
        ensures
            o.num_entries == 10000,
            o.expiration_ms == 600000,
    {
        QuotaOptions { num_entries: 10000, expiration_ms: 600000 }
    }
}

} // verus!
