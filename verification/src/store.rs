//! The Code Store: a capacity- and time-bounded map from opaque authorization
//! code to the record of the grant it stands for.
//!
//! The store itself is `lru_time_cache::LruCache`, which evicts entries either
//! when they outlive the configured time-to-live or when the capacity bound
//! would be exceeded (least-recently-used first). Because eviction is driven by
//! the wall clock, the contracts here treat it as nondeterministic: an entry
//! that was inserted may later be gone, but an entry can never appear or change
//! without an insertion.

use vstd::prelude::*;

use lru_time_cache::LruCache;

verus! {

/// The record of a pending authorization grant, keyed in the store by the
/// opaque code handed to the client.
///
/// Fields are immutable after creation; the only lifecycle events are
/// creation by the issuer, reads during exchange, and destruction by
/// expiry or eviction.
#[derive(Clone, Debug)]
pub struct CodeItem {
    pub redirect_uri: String,
    pub client_id: String,
    pub me: String,
    pub scope: Option<String>,
}

impl CodeItem {
    /// The granted scope, with an absent scope read as the empty string.
    pub open spec fn scope_or_empty(self) -> Seq<char> {
        match self.scope {
            Some(s) => s@,
            None => Seq::<char>::empty(),
        }
    }
}

#[verifier::external_type_specification]
#[verifier::external_body]
#[verifier::reject_recursive_types(Key)]
#[verifier::reject_recursive_types(Value)]
pub struct ExLruCache<Key, Value>(LruCache<Key, Value>);

/// The entries the store currently holds, as a map from code to record.
/// Entries that the cache has already discarded (by age or by capacity) are
/// not in this map.
pub uninterp spec fn cache_contents(cache: LruCache<String, CodeItem>) -> Map<Seq<char>, CodeItem>;

/// The capacity bound the store was constructed with. Operations never change
/// it. It must be at least one: `lru_time_cache` aborts on the first insert
/// into a zero-capacity cache, so every constructor here demands a positive
/// bound and every insertion relies on it.
pub uninterp spec fn cache_capacity(cache: LruCache<String, CodeItem>) -> usize;

/// Time-to-live of a stored code: three hours, in seconds.
pub const CODE_TTL_SECS: u64 = 3 * 3600;

/// Relies on `lru_time_cache::LruCache::with_expiry_duration_and_capacity`:
/// a freshly constructed cache holds no entries and keeps the given bound.
#[verifier::external_body]
fn store_new(ttl_secs: u64, capacity: usize) -> (r: LruCache<String, CodeItem>)
    ensures
        forall|k: Seq<char>| !(#[trigger] cache_contents(r).contains_key(k)),
        cache_capacity(r) == capacity,
{
    LruCache::with_expiry_duration_and_capacity(core::time::Duration::from_secs(ttl_secs), capacity)
}

/// A store that keeps each record for `ttl_secs` seconds at most and holds at
/// most `capacity` records, evicting the least recently used one first.
pub fn store_with(ttl_secs: u64, capacity: usize) -> (r: LruCache<String, CodeItem>)
    requires
        capacity >= 1,
    ensures
        cache_contents(r) == Map::<Seq<char>, CodeItem>::empty(),
        cache_capacity(r) == capacity,
{
    store_new(ttl_secs, capacity)
}

/// The Code Store used by the server: records live for three hours; the
/// capacity bound is configuration supplied by the composition root.
pub fn cache(capacity: usize) -> (r: LruCache<String, CodeItem>)
    requires
        capacity >= 1,
    ensures
        cache_contents(r) == Map::<Seq<char>, CodeItem>::empty(),
        cache_capacity(r) == capacity,
{
    store_new(CODE_TTL_SECS, capacity)
}

/// Relies on `lru_time_cache::LruCache::insert`: the pair is stored under the
/// given key; other entries keep their value, though the insertion may drop
/// expired entries and, at capacity, the least recently used ones. Insertion
/// into a cache whose capacity bound is zero aborts inside the crate, so that
/// input is excluded here.
#[verifier::external_body]
fn insert_raw(cache: &mut LruCache<String, CodeItem>, code: String, item: CodeItem)
    requires
        cache_capacity(*old(cache)) >= 1,
    ensures
        cache_capacity(*final(cache)) == cache_capacity(*old(cache)),
        cache_contents(*final(cache)).contains_key(code@),
        cache_contents(*final(cache))[code@] == item,
        forall|k: Seq<char>|
            k != code@ && #[trigger] cache_contents(*final(cache)).contains_key(k)
                ==> cache_contents(*old(cache)).contains_key(k)
                    && cache_contents(*final(cache))[k] == cache_contents(*old(cache))[k],
{
    let _ = cache.insert(code, item);
}

/// Stores `item` under `code`, inserting or overwriting, and refreshes the
/// entry's recency. Every other entry keeps its value, though the store may
/// drop entries of its own accord (age or capacity); none appears or changes.
pub fn put(cache: &mut LruCache<String, CodeItem>, code: String, item: CodeItem)
    requires
        cache_capacity(*old(cache)) >= 1,
    ensures
        cache_capacity(*final(cache)) == cache_capacity(*old(cache)),
        cache_contents(*final(cache)).contains_key(code@),
        cache_contents(*final(cache))[code@] == item,
        forall|k: Seq<char>|
            k != code@ && #[trigger] cache_contents(*final(cache)).contains_key(k)
                ==> cache_contents(*old(cache)).contains_key(k)
                    && cache_contents(*final(cache))[k] == cache_contents(*old(cache))[k],
{
    insert_raw(cache, code, item)
}

/// Relies on `lru_time_cache::LruCache::get`: a hit returns a copy of the
/// stored record and refreshes its recency; a miss means the key is not (or no
/// longer) stored, expired entries having been purged first. No entry appears
/// or changes value through a lookup.
#[verifier::external_body]
fn lookup_raw(cache: &mut LruCache<String, CodeItem>, code: &String) -> (r: Option<CodeItem>)
    ensures
        cache_capacity(*final(cache)) == cache_capacity(*old(cache)),
        match r {
            Some(item) => cache_contents(*old(cache)).contains_key(code@)
                && cache_contents(*old(cache))[code@] == item
                && cache_contents(*final(cache)).contains_key(code@)
                && cache_contents(*final(cache))[code@] == item,
            None => !cache_contents(*final(cache)).contains_key(code@),
        },
        forall|k: Seq<char>|
            #[trigger] cache_contents(*final(cache)).contains_key(k)
                ==> cache_contents(*old(cache)).contains_key(k)
                    && cache_contents(*final(cache))[k] == cache_contents(*old(cache))[k],
{
    cache.get(code).cloned()
}

/// Looks `code` up: a hit returns a copy of the record, still stored and
/// refreshed in recency; a miss means the code is not (or no longer) stored.
/// A lookup never makes an entry appear or change value.
pub fn get(cache: &mut LruCache<String, CodeItem>, code: &String) -> (r: Option<CodeItem>)
    ensures
        cache_capacity(*final(cache)) == cache_capacity(*old(cache)),
        match r {
            Some(item) => cache_contents(*old(cache)).contains_key(code@)
                && cache_contents(*old(cache))[code@] == item
                && cache_contents(*final(cache)).contains_key(code@)
                && cache_contents(*final(cache))[code@] == item,
            None => !cache_contents(*final(cache)).contains_key(code@),
        },
        forall|k: Seq<char>|
            #[trigger] cache_contents(*final(cache)).contains_key(k)
                ==> cache_contents(*old(cache)).contains_key(k)
                    && cache_contents(*final(cache))[k] == cache_contents(*old(cache))[k],
{
    lookup_raw(cache, code)
}

} // verus!
