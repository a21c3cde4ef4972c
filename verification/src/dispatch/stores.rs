//! The static response store and the response cache: concurrent maps
//! keyed by the composed key `METHOD:path`.

use vstd::prelude::*;
use dashmap::DashMap;
use crate::dispatch::entries::{
    CachedResponse, CachedResponseView, StaticResponse, StaticResponseView,
};

verus! {

/// `dashmap::DashMap`, a concurrent map, of which the library sees
/// nothing but what the functions below say.
#[verifier::external_type_specification]
#[verifier::external_body]
#[verifier::reject_recursive_types(K)]
#[verifier::reject_recursive_types(V)]
#[verifier::reject_recursive_types(S)]
pub struct ExDashMap<K, V, S>(DashMap<K, V, S>);

/// The store of static responses, by composed key.
pub type StaticStore = DashMap<String, StaticResponse>;

/// The cache of responses, by composed key.
pub type ResponseCache = DashMap<String, CachedResponse>;

/// What a static store holds: each key with its entry.
pub uninterp spec fn static_entries(store: StaticStore) -> Map<Seq<char>, StaticResponseView>;

/// What a cache holds: each key with its entry.
pub uninterp spec fn cache_entries(cache: ResponseCache) -> Map<Seq<char>, CachedResponseView>;

/// The map without entries.
pub open spec fn no_entries<V>() -> Map<Seq<char>, V> {
    Map::empty()
}

/// The map is finite and has `n` entries.
pub open spec fn holds_exactly<V>(entries: Map<Seq<char>, V>, n: usize) -> bool {
    entries.dom().finite() && entries.len() == n
}

/// An empty static store. `DashMap::new` creates a map without entries.
#[verifier::external_body]
pub(crate) fn statics_new() -> (store: StaticStore)
    ensures
        static_entries(store) == no_entries::<StaticResponseView>(),
{
    DashMap::new()
}

/// A copy of the entry under `key`. `DashMap::get` finds the entry whose
/// key equals `key`, if the map holds one.
#[verifier::external_body]
pub(crate) fn statics_get(store: &StaticStore, key: &str) -> (found: Option<StaticResponse>)
    ensures
        match found {
            Some(entry) => static_entries(*store).contains_key(key@) && entry@ == static_entries(
                *store,
            )[key@],
            None => !static_entries(*store).contains_key(key@),
        },
{
    store.get(key).map(|entry| entry.value().clone())
}

/// Stores `entry` under `key`. `DashMap::insert` adds the pair, replacing
/// the value of an equal key, and touches no other entry. It does not
/// unwind: with the map borrowed exclusively no lock is held, and the
/// path holds no panic.
#[verifier::external_body]
pub(crate) fn statics_insert(store: &mut StaticStore, key: String, entry: StaticResponse)
    ensures
        static_entries(*final(store)) == static_entries(*old(store)).insert(key@, entry@),
    no_unwind
{
    store.insert(key, entry);
}

/// The number of entries. `DashMap::len` sums the sizes of the shards,
/// which together hold each entry once.
#[verifier::external_body]
pub(crate) fn statics_len(store: &StaticStore) -> (n: usize)
    ensures
        holds_exactly(static_entries(*store), n),
{
    store.len()
}

/// An empty cache. `DashMap::new` creates a map without entries.
#[verifier::external_body]
pub(crate) fn cache_new() -> (cache: ResponseCache)
    ensures
        cache_entries(cache) == no_entries::<CachedResponseView>(),
{
    DashMap::new()
}

/// A copy of the entry under `key`. `DashMap::get` finds the entry whose
/// key equals `key`, if the map holds one.
#[verifier::external_body]
pub(crate) fn cache_get(cache: &ResponseCache, key: &str) -> (found: Option<CachedResponse>)
    ensures
        match found {
            Some(entry) => cache_entries(*cache).contains_key(key@) && entry@ == cache_entries(
                *cache,
            )[key@],
            None => !cache_entries(*cache).contains_key(key@),
        },
{
    cache.get(key).map(|entry| entry.value().clone())
}

/// Stores `entry` under `key`. `DashMap::insert` adds the pair, replacing
/// the value of an equal key, and touches no other entry. It does not
/// unwind: with the map borrowed exclusively no lock is held, and the
/// path holds no panic.
#[verifier::external_body]
pub(crate) fn cache_insert(cache: &mut ResponseCache, key: String, entry: CachedResponse)
    ensures
        cache_entries(*final(cache)) == cache_entries(*old(cache)).insert(key@, entry@),
    no_unwind
{
    cache.insert(key, entry);
}

/// Drops the entry under `key`. `DashMap::remove` takes out the entry whose
/// key equals `key`, if the map holds one, and touches no other entry. It
/// does not unwind.
#[verifier::external_body]
pub(crate) fn cache_remove(cache: &mut ResponseCache, key: &str)
    ensures
        cache_entries(*final(cache)) == cache_entries(*old(cache)).remove(key@),
    no_unwind
{
    cache.remove(key);
}

/// Drops every entry. `DashMap::clear` empties each shard. It does not
/// unwind.
#[verifier::external_body]
pub(crate) fn cache_clear(cache: &mut ResponseCache)
    ensures
        cache_entries(*final(cache)) == no_entries::<CachedResponseView>(),
    no_unwind
{
    cache.clear();
}

/// The number of entries. `DashMap::len` sums the sizes of the shards,
/// which together hold each entry once.
#[verifier::external_body]
pub(crate) fn cache_len(cache: &ResponseCache) -> (n: usize)
    ensures
        holds_exactly(cache_entries(*cache), n),
{
    cache.len()
}

} // verus!
