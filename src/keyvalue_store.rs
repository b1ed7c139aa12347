//! The interface of a durable key-value store, for storage engines that
//! live outside this library.
use vstd::prelude::*;

verus! {

/// Why a key-value store operation failed.
#[derive(Debug, Clone, PartialEq, Eq)]
pub enum KeyValueStoreError {
    /// An error occurred with the underlying data store implementation.
    InternalError(String),
    /// An error occurred during a put query.
    InsertError(String),
    /// An error occurred during a get query.
    GetError(String),
}

/// A durable map from keys to values, implemented by a storage engine.
pub trait KeyValueStore<K, V> {
    fn get(&self, key: &K) -> Result<&V, KeyValueStoreError>;

    fn insert(&mut self, key: K, value: V) -> Result<V, KeyValueStoreError>;

    fn contains_key<Q: ?Sized>(&self, key: &Q) -> bool;

    fn remove<Q: ?Sized>(&mut self, key: &Q) -> Result<V, KeyValueStoreError>;
}

} // verus!
