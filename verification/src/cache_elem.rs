//! One entry of the check cache: a cached status and when it expires.

use vstd::prelude::*;
use crate::status::Status;
use crate::time::Timestamp;

verus! {

/// Seconds for which a default cache entry stays valid (3200 * 24).
pub const DEFAULT_EXPIRATION_SECS: i64 = 76800;

/// A cached check status with its expiration time.
pub struct CacheElem {
    pub status: Status,
    pub expire_time: Timestamp,
    pub use_count: u32,
}

impl CacheElem {
    /// An entry with an OK status that expires `DEFAULT_EXPIRATION_SECS`
    /// seconds after the current time of the system clock.
    pub fn new() -> (e: CacheElem)
        ensures
            e.status == Status::new_spec(),
            e.use_count == 0,
            e.expire_time.wf(),
            exists|now: Timestamp|
                #![trigger now.plus_seconds_spec(DEFAULT_EXPIRATION_SECS)]
                now.wf() && e.expire_time == now.plus_seconds_spec(DEFAULT_EXPIRATION_SECS),
    {
        let now = Timestamp::now();
        let e = CacheElem::new_at(now);
        assert(e.expire_time == now.plus_seconds_spec(DEFAULT_EXPIRATION_SECS));
        e
    }

    /// An entry with an OK status that expires `DEFAULT_EXPIRATION_SECS`
    /// seconds after `now`.
    pub fn new_at(now: Timestamp) -> (e: CacheElem)
        ensures
            e.status == Status::new_spec(),
            e.use_count == 0,
            e.expire_time == now.plus_seconds_spec(DEFAULT_EXPIRATION_SECS),
            now.wf() ==> e.expire_time.wf(),
    {
        CacheElem {
            status: Status::new(),
            expire_time: now.plus_seconds(DEFAULT_EXPIRATION_SECS),
            use_count: 0,
        }
    }

    /// An entry with the given status and expiration time.
    pub fn with_status_expired(status: Status, expire_time: Timestamp) -> (e: CacheElem)
        ensures
            e.status == status,
            e.expire_time == expire_time,
            e.use_count == 0,
    {
        CacheElem { status, expire_time, use_count: 0 }
    }

    /// The entry has expired at `time`: `time` is its expiration time or later.
    pub fn is_expired(&self, time: Timestamp) -> (r: bool)
        ensures
            r == time.at_or_after(self.expire_time),
    {
        time.is_at_or_after(&self.expire_time)
    }

    /// The cached status.
    pub fn get_status(&self) -> (s: Status)
        ensures
            s == self.status,
    {
        self.status.clone()
    }
}

/// An entry made by `new_at(now)` has not expired at `now`, nor at any
/// time before its expiration, and has expired at its expiration time.
pub proof fn lemma_fresh_entry_not_expired(now: Timestamp, later: Timestamp)
    requires
        now.wf(),
        now.seconds <= i64::MAX - DEFAULT_EXPIRATION_SECS,
        later.wf(),
    ensures
        !now.at_or_after(now.plus_seconds_spec(DEFAULT_EXPIRATION_SECS)),
        later.at_or_after(now.plus_seconds_spec(DEFAULT_EXPIRATION_SECS)) <==> later.seconds
            > now.seconds + DEFAULT_EXPIRATION_SECS || (later.seconds == now.seconds
            + DEFAULT_EXPIRATION_SECS && later.nanos >= now.nanos),
{
}

impl Clone for CacheElem {
    /// A copy of this entry, equal to it field by field.
    fn clone(&self) -> (e: CacheElem)
        ensures
            e == *self,
    {
        CacheElem { status: self.status.clone(), expire_time: self.expire_time, use_count: self.use_count }
    }
}

} // verus!
