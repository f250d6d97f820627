//! Errors of the state database.

use vstd::prelude::*;

verus! {

/// What can go wrong. `E` is the error type of the key-value store.
#[derive(Debug, PartialEq, Eq)]
pub enum DbError<E> {
    /// The store reported an error.
    RocksDb(E),
    /// The stored world hash does not have the length of a world hash.
    CorruptWorldHash { expected: usize, got: usize },
    /// A stored account has this length in place of 72 bytes.
    CorruptAccount(usize),
    /// A stored slot value has this length in place of 32 bytes.
    CorruptStorage(usize),
}

} // verus!
