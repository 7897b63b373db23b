//! The check cache's store: cache entries indexed by signature.

use vstd::prelude::*;
use std::collections::HashMap;
use crate::cache_elem::CacheElem;

verus! {

/// Cache entries indexed by a 64-bit signature.
pub struct LRUCache {
    values: HashMap<u64, CacheElem>,
}

impl View for LRUCache {
    type V = Map<u64, CacheElem>;

    closed spec fn view(&self) -> Map<u64, CacheElem> {
        self.values@
    }
}

impl LRUCache {
    /// An empty cache.
    pub fn new() -> (c: LRUCache)
        ensures
            c@ == Map::<u64, CacheElem>::empty(),
    {
        LRUCache { values: HashMap::new() }
    }

    /// A copy of the entry stored under `key`, if any.
    pub fn get(&self, key: u64) -> (r: Option<CacheElem>)
        ensures
            match r {
                Some(e) => self@.contains_key(key) && e == self@[key],
                None => !self@.contains_key(key),
            },
    {
        match self.values.get(&key) {
            Some(value) => Some(value.clone()),
            None => None,
        }
    }

    /// Removes the entry stored under `key`, if any; other entries stay.
    pub fn remove(&mut self, key: u64)
        ensures
            final(self)@ == old(self)@.remove(key),
    {
        self.values.remove(&key);
    }
}

/// After `remove(key)`, `get(key)` finds nothing, and every other key keeps
/// its entry.
pub proof fn lemma_remove_then_get(m: Map<u64, CacheElem>, key: u64, other: u64)
    requires
        other != key,
    ensures
        !m.remove(key).contains_key(key),
        m.remove(key).contains_key(other) == m.contains_key(other),
        m.contains_key(other) ==> m.remove(key)[other] == m[other],
{
}

} // verus!
