//! The check cache: check results cached under attribute signatures.

use vstd::prelude::*;
use crate::status::{Status, StatusCodeEnum};
use crate::options::CheckOptions;
use crate::time::Timestamp;
use crate::cache_elem::CacheElem;
use crate::lru_cache::LRUCache;
use crate::attr_wrapper::{AttributeWrapper, AttrsView};
use crate::referenced::{Referenced, signature_spec};

verus! {

/// What the check cache reads of a mixer check response: the status code of
/// its precondition.
pub struct CheckResponse {
    pub status_code: i32,
}

impl CheckResponse {
    /// A response whose precondition status is OK.
    pub fn new() -> (r: CheckResponse)
        ensures
            r.status_code == 0,
    {
        CheckResponse { status_code: 0 }
    }
}

/// The abstract referenced keys: absence keys and exact keys.
pub type ReferencedView = (Seq<Seq<char>>, Seq<Seq<char>>);

/// The cache signature of `es` under referenced keys `r`, with an empty
/// extra key.
pub open spec fn ref_signature(r: ReferencedView, es: AttrsView) -> Option<u64> {
    signature_spec(r.0, r.1, es, Seq::empty())
}

/// Under the `i`-th referenced keys, `es` has a signature that the cache
/// holds an entry for.
pub open spec fn is_hit(refs: Seq<ReferencedView>, es: AttrsView, cache: Map<u64, CacheElem>, i: int) -> bool {
    &&& 0 <= i < refs.len()
    &&& ref_signature(refs[i], es) is Some
    &&& cache.contains_key(ref_signature(refs[i], es)->0)
}

/// `i` is the first referenced keys under which the cache has an entry.
pub open spec fn is_first_hit(refs: Seq<ReferencedView>, es: AttrsView, cache: Map<u64, CacheElem>, i: int) -> bool {
    &&& is_hit(refs, es, cache, i)
    &&& forall|j: int| 0 <= j < i ==> !is_hit(refs, es, cache, j)
}

/// Some referenced keys give a cached signature.
pub open spec fn has_hit(refs: Seq<ReferencedView>, es: AttrsView, cache: Map<u64, CacheElem>) -> bool {
    exists|i: int| is_hit(refs, es, cache, i)
}

/// The first referenced keys under which the cache has an entry.
pub open spec fn first_hit(refs: Seq<ReferencedView>, es: AttrsView, cache: Map<u64, CacheElem>) -> int {
    choose|i: int| is_first_hit(refs, es, cache, i)
}

/// The signature of the first hit.
pub open spec fn hit_signature(refs: Seq<ReferencedView>, es: AttrsView, cache: Map<u64, CacheElem>) -> u64 {
    ref_signature(refs[first_hit(refs, es, cache)], es)->0
}

/// The outcome of a cache lookup at time `tick`: the first referenced keys
/// under which the cache holds an entry decide. An entry that has expired
/// at `tick` is dropped and gives `NOT_FOUND`; a live entry gives its
/// status. Without such an entry the result is `NOT_FOUND`.
pub open spec fn lookup_outcome(
    refs: Seq<ReferencedView>,
    es: AttrsView,
    cache: Map<u64, CacheElem>,
    tick: Timestamp,
) -> (Status, Map<u64, CacheElem>) {
    if has_hit(refs, es, cache) {
        let s = hit_signature(refs, es, cache);
        let e = cache[s];
        if tick.at_or_after(e.expire_time) {
            (Status::with_code_spec(StatusCodeEnum::NOT_FOUND), cache.remove(s))
        } else {
            (e.status, cache)
        }
    } else {
        (Status::with_code_spec(StatusCodeEnum::NOT_FOUND), cache)
    }
}

/// The first hit is unique.
pub proof fn lemma_first_hit(refs: Seq<ReferencedView>, es: AttrsView, cache: Map<u64, CacheElem>, i: int)
    requires
        is_first_hit(refs, es, cache, i),
    ensures
        has_hit(refs, es, cache),
        first_hit(refs, es, cache) == i,
{
    let c = first_hit(refs, es, cache);
    assert(is_first_hit(refs, es, cache, c));
    if c < i {
        assert(!is_hit(refs, es, cache, c));
    } else if c > i {
        assert(!is_hit(refs, es, cache, i));
    }
}

/// Check results cached under the signatures of attribute sets.
pub struct CheckCache {
    options: CheckOptions,
    cache: LRUCache,
    referenced_map: Vec<(String, Referenced)>,
}

impl CheckCache {
    /// The cached entries.
    pub closed spec fn entries(&self) -> Map<u64, CacheElem> {
        self.cache@
    }

    /// The referenced keys, in lookup order.
    pub closed spec fn references(&self) -> Seq<ReferencedView> {
        self.referenced_map@.map_values(|e: (String, Referenced)| e.1@)
    }

    /// Whether a check passes on network failures.
    pub closed spec fn fail_open(&self) -> bool {
        self.options.network_fail_open
    }

    /// The maximum number of entries the cache is configured to keep.
    pub closed spec fn max_entries(&self) -> u32 {
        self.options.num_entries
    }

    /// An empty cache with the default check options.
    pub fn new() -> (c: CheckCache)
        ensures
            c.entries() == Map::<u64, CacheElem>::empty(),
            c.references() == Seq::<ReferencedView>::empty(),
            c.fail_open(),
            c.max_entries() == 10000,
    {
        let c = CheckCache { options: CheckOptions::new(), cache: LRUCache::new(), referenced_map: Vec::new() };
        assert(c.references() =~= Seq::<ReferencedView>::empty());
        c
    }

    /// Looks the attributes up at time `tick`, as `lookup_outcome` says: the
    /// status found, with an expired entry removed from the cache.
    pub fn check_attribute_time(&mut self, attributes: &AttributeWrapper, tick: Timestamp) -> (r: Status)
        requires
            attributes.wf(),
        ensures
            r == lookup_outcome(old(self).references(), attributes@, old(self).entries(), tick).0,
            final(self).entries() == lookup_outcome(
                old(self).references(),
                attributes@,
                old(self).entries(),
                tick,
            ).1,
            final(self).references() == old(self).references(),
            final(self).fail_open() == old(self).fail_open(),
    {
        let ghost refs = self.references();
        let ghost es = attributes@;
        let ghost cache0 = self.cache@;
        let mut found: Option<(u64, CacheElem)> = None;
        let mut i: usize = 0;
        while i < self.referenced_map.len()
            invariant_except_break
                found.is_none(),
            invariant
                i <= self.referenced_map.len(),
                refs == self.references(),
                es == attributes@,
                attributes.wf(),
                self.cache@ == cache0,
                forall|j: int| 0 <= j < i ==> !is_hit(refs, es, cache0, j),
            ensures
                match found {
                    Some((sig, value)) => {
                        &&& has_hit(refs, es, cache0)
                        &&& sig == hit_signature(refs, es, cache0)
                        &&& value == cache0[sig]
                    },
                    None => !has_hit(refs, es, cache0),
                },
            decreases self.referenced_map.len() - i,
        {
            let some_signature = self.referenced_map[i].1.signature(attributes, "");
            proof {
                assert(refs[i as int] == self.referenced_map@[i as int].1@);
                assert(""@ =~= Seq::<char>::empty()) by {
                    reveal_strlit("");
                }
            }
            if let Some(signature) = some_signature {
                if let Some(value) = self.cache.get(signature) {
                    proof {
                        assert(is_first_hit(refs, es, cache0, i as int));
                        lemma_first_hit(refs, es, cache0, i as int);
                    }
                    found = Some((signature, value));
                    break;
                }
            }
            i = i + 1;
        }
        match found {
            None => Status::with_code(StatusCodeEnum::NOT_FOUND),
            Some((signature, value)) => {
                if value.is_expired(tick) {
                    self.cache.remove(signature);
                    Status::with_code(StatusCodeEnum::NOT_FOUND)
                } else {
                    value.get_status()
                }
            },
        }
    }

    /// Records a check response in the cache. Caching is not implemented:
    /// nothing is recorded and the status is OK.
    pub fn cache_response(&self, _attributes: &AttributeWrapper, _response: &CheckResponse, _time_now: Timestamp) -> (r: Status)
        ensures
            r == Status::new_spec(),
    {
        Status::new()
    }

    /// Looks the attributes up at time `tick` and gives a check result that
    /// holds the status found, or OK where nothing was found.
    pub fn check_at<F>(&mut self, attributes: &AttributeWrapper, tick: Timestamp, on_response: F) -> (r: CheckResult<F>)
        requires
            attributes.wf(),
        ensures
            ({
                let (s, c) = lookup_outcome(old(self).references(), attributes@, old(self).entries(), tick);
                &&& final(self).entries() == c
                &&& r.status == if s.error_code != StatusCodeEnum::NOT_FOUND { s } else { Status::new_spec() }
            }),
            r.on_response == on_response,
            final(self).references() == old(self).references(),
            final(self).fail_open() == old(self).fail_open(),
    {
        let mut result = CheckResult::new(on_response);
        let status = self.check_attribute_time(attributes, tick);
        if status.get_error_code() != StatusCodeEnum::NOT_FOUND {
            result.set_status(status);
        }
        result
    }

    /// Looks the attributes up at the current time of the system clock, as
    /// `check_at` does for that time.
    pub fn check<F>(&mut self, attributes: &AttributeWrapper, on_response: F) -> (r: CheckResult<F>)
        requires
            attributes.wf(),
        ensures
            exists|tick: Timestamp|
                #![trigger lookup_outcome(old(self).references(), attributes@, old(self).entries(), tick)]
                {
                let (s, c) = lookup_outcome(old(self).references(), attributes@, old(self).entries(), tick);
                &&& tick.wf()
                &&& final(self).entries() == c
                &&& r.status == if s.error_code != StatusCodeEnum::NOT_FOUND { s } else { Status::new_spec() }
            },
            r.on_response == on_response,
            final(self).references() == old(self).references(),
            final(self).fail_open() == old(self).fail_open(),
    {
        let tick = Timestamp::now();
        let ghost refs = self.references();
        let ghost entries = self.entries();
        let r = self.check_at(attributes, tick, on_response);
        proof {
            let _ = lookup_outcome(refs, attributes@, entries, tick);
        }
        r
    }
}

/// The response handler installed by the check cache: a failed status
/// passes as OK when the cache fails open and stays as it is otherwise; a
/// successful one is recorded in the cache.
pub fn on_response(cache: &CheckCache, status: Status, attributes: &AttributeWrapper, response: &CheckResponse) -> (r: Status)
    ensures
        r == if !status.ok_spec() && !cache.fail_open() { status } else { Status::new_spec() },
{
    if !status.ok() {
        if cache.options.network_fail_open {
            Status::new()
        } else {
            status
        }
    } else {
        cache.cache_response(attributes, response, Timestamp::now())
    }
}

/// What is called when a check is done.
pub trait CheckDoneCallBack {
    /// Called when the check is done.
    fn invoke();
}

/// The result of a check: its status, and the handler that turns the
/// transport's answer into the final status.
pub struct CheckResult<F> {
    pub status: Status,
    pub on_response: F,
}

impl<F> CheckResult<F> {
    /// An OK result with the given response handler.
    pub fn new(on_response: F) -> (r: CheckResult<F>)
        ensures
            r.status == Status::new_spec(),
            r.on_response == on_response,
    {
        CheckResult { status: Status::new(), on_response }
    }

    /// The result was decided without the mixer server: its status is not
    /// `UNAVAILABLE`.
    pub fn is_cache_hit(&self) -> (r: bool)
        ensures
            r == (self.status.error_code != StatusCodeEnum::UNAVAILABLE),
    {
        self.status.get_error_code().code() != StatusCodeEnum::UNAVAILABLE.code()
    }

    /// The status.
    pub fn get_status(&self) -> (s: Status)
        ensures
            s == self.status,
    {
        self.status.clone()
    }

    /// Replaces the status.
    pub fn set_status(&mut self, status: Status)
        ensures
            final(self).status == status,
            final(self).on_response == old(self).on_response,
    {
        self.status = status;
    }
}

impl<F: Fn(&CheckCache, Status, &AttributeWrapper, &CheckResponse) -> Status> CheckResult<F> {
    /// Passes the transport's status and response to the handler and keeps
    /// the status it returns.
    pub fn set_response(&mut self, cache: &CheckCache, status: Status, attributes: &AttributeWrapper, response: &CheckResponse)
        requires
            call_requires(old(self).on_response, (cache, status, attributes, response)),
        ensures
            call_ensures(old(self).on_response, (cache, status, attributes, response), final(self).status),
            final(self).on_response == old(self).on_response,
    {
        let handled = (self.on_response)(cache, status, attributes, response);
        self.set_status(handled);
    }
}

} // verus!
