//! The digest cache: a concurrency-safe map from cache key (the comma-joined
//! canonical globs) to digest string. Within verified code the handle is held
//! by exclusive reference; the sharded map inside keeps concurrent callers of
//! the surrounding session safe.
use vstd::prelude::*;

verus! {

/// A memoization map from cache key to digest string. Process-scoped,
/// unbounded, with no eviction: it lives as long as the owning session and
/// is never persisted.
#[verifier::external_body]
pub struct DigestCache {
    map: dashmap::DashMap<String, String>,
}

/// The entries a digest cache holds.
pub uninterp spec fn cache_entries(c: DigestCache) -> Map<Seq<char>, Seq<char>>;

/// The entry map of a cache that holds nothing.
pub open spec fn no_entries() -> Map<Seq<char>, Seq<char>> {
    Map::empty()
}

impl DigestCache {
    /// Relies on dashmap::DashMap::new: a freshly created map holds no
    /// entries.
    #[verifier::external_body]
    pub fn new() -> (r: DigestCache)
        ensures
            cache_entries(r) == no_entries(),
    {
        DigestCache { map: dashmap::DashMap::new() }
    }

    /// Relies on dashmap::DashMap::get: returns a copy of the value stored
    /// under the key, if there is one.
    #[verifier::external_body]
    pub fn get(&self, key: &str) -> (r: Option<String>)
        ensures
            match r {
                Some(v) => cache_entries(*self).contains_key(key@) && v@ == cache_entries(
                    *self,
                )[key@],
                None => !cache_entries(*self).contains_key(key@),
            },
    {
        self.map.get(key).map(|entry| entry.value().clone())
    }

    /// Relies on dashmap::DashMap::insert: stores the value under the key,
    /// replacing any value stored earlier.
    #[verifier::external_body]
    pub fn insert(&mut self, key: String, value: String)
        ensures
            cache_entries(*final(self)) == cache_entries(*old(self)).insert(key@, value@),
    {
        self.map.insert(key, value);
    }

    /// Relies on dashmap::DashMap::is_empty: reports whether the map holds
    /// no entry at all.
    #[verifier::external_body]
    pub fn is_empty(&self) -> (r: bool)
        ensures
            r == (cache_entries(*self) =~= no_entries()),
    {
        self.map.is_empty()
    }
}

} // verus!
