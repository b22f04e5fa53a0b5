//! The response cache shared by all connections: path to body bytes.
//!
//! The store is a `dashmap::DashMap`, whose shards lock independently, so
//! connections touching different paths do not wait for each other. Any
//! connection may insert at any time, so what a lookup returns depends on what
//! other connections did before it: nothing is promised of it here, and the
//! decisions that follow a lookup take its result as an argument.
use vstd::prelude::*;
use dashmap::DashMap;

verus! {

#[verifier::external_type_specification]
#[verifier::external_body]
#[verifier::reject_recursive_types(K)]
#[verifier::reject_recursive_types(V)]
#[verifier::reject_recursive_types(S)]
pub struct ExDashMap<K, V, S>(DashMap<K, V, S>);

/// Relies on `DashMap::new`: creates an empty concurrent map.
#[verifier::external_body]
fn new_store() -> DashMap<String, Vec<u8>> {
    DashMap::new()
}

/// Relies on `DashMap::get`: a copy of the body stored under `path`, if any at
/// the moment of the call. The guard that `get` returns is dropped before
/// returning.
#[verifier::external_body]
fn store_get(store: &DashMap<String, Vec<u8>>, path: &String) -> Option<Vec<u8>> {
    store.get(path).map(|entry| entry.value().clone())
}

/// Relies on `DashMap::insert`: stores `body` under `path`, replacing any body
/// stored there before.
#[verifier::external_body]
fn store_insert(store: &DashMap<String, Vec<u8>>, path: String, body: Vec<u8>) {
    store.insert(path, body);
}

/// A concurrent cache of response bodies keyed by request path. It has no
/// eviction: an entry lives as long as the cache.
pub struct ResponseCache {
    store: DashMap<String, Vec<u8>>,
}

impl ResponseCache {
    /// An empty cache.
    pub fn new() -> ResponseCache {
        ResponseCache { store: new_store() }
    }

    /// The body cached under `path`, if there is one at the moment of the call.
    pub fn lookup(&self, path: &String) -> Option<Vec<u8>> {
        store_get(&self.store, path)
    }

    /// Caches `body` under `path` (last writer wins).
    pub fn insert(&self, path: String, body: Vec<u8>) {
        store_insert(&self.store, path, body)
    }
}

} // verus!
