//! The record store as the engine sees it: what can go wrong in it, and a
//! mathematical model of what it keeps.
//!
//! The store itself lives outside this library. The engine hands out one
//! operation at a time and is told the answer; the model below says what a
//! faithful store answers, so that sequences of operations can be reasoned
//! about.

use vstd::prelude::*;

verus! {

/// Why the store did not do what it was asked.
#[derive(Clone, Copy, Debug, PartialEq, Eq, Structural)]
pub enum StoreError {
    /// Nothing is stored under the path.
    NotFound,
    /// The store failed; the number is the host's error code.
    Backend(i32),
}

/// What a store keeps: a value under each path that was written and not
/// deleted since.
pub type Contents = Map<Seq<u8>, Seq<u8>>;

/// The answer of a faithful store to a read of `path`.
pub open spec fn kv_get(store: Contents, path: Seq<u8>) -> Result<Seq<u8>, StoreError> {
    if store.contains_key(path) {
        Ok(store[path])
    } else {
        Err(StoreError::NotFound)
    }
}

/// The store after `value` was written at `path`, replacing what was there.
pub open spec fn kv_put(store: Contents, path: Seq<u8>, value: Seq<u8>) -> Contents {
    store.insert(path, value)
}

/// The store after `path` was deleted.
pub open spec fn kv_delete(store: Contents, path: Seq<u8>) -> Contents {
    store.remove(path)
}

/// The answer of a faithful store to a delete of `path`.
pub open spec fn kv_delete_reply(store: Contents, path: Seq<u8>) -> Result<(), StoreError> {
    if store.contains_key(path) {
        Ok(())
    } else {
        Err(StoreError::NotFound)
    }
}

/// What was written can be read; what was deleted cannot; and neither
/// touches another path.
pub proof fn law_store_model(store: Contents, path: Seq<u8>, value: Seq<u8>, other: Seq<u8>)
    requires
        other != path,
    ensures
        kv_get(kv_put(store, path, value), path) == Ok::<Seq<u8>, StoreError>(value),
        kv_get(kv_delete(store, path), path) == Err::<Seq<u8>, StoreError>(StoreError::NotFound),
        kv_get(kv_put(store, path, value), other) == kv_get(store, other),
        kv_get(kv_delete(store, path), other) == kv_get(store, other),
        kv_delete(kv_delete(store, path), path) == kv_delete(store, path),
{
    assert(kv_delete(kv_delete(store, path), path) =~= kv_delete(store, path));
}

} // verus!
