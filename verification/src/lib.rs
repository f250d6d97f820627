//! A lattice hash (LtHash) as the commitment of a flat key-value state.
//!
//! Each entry, an account or a storage slot, is hashed to a vector of 1024
//! `u16` lanes. The world hash is the sum of these vectors with wrapping
//! addition, and the state root is the BLAKE3 digest of its bytes:
//!
//! ```text
//! entry_hash = BLAKE3_XOF(domain || 0x00 || key || 0x00 || value)   2048 bytes
//! world_hash = sum of entry_hash over all entries
//! state_root = BLAKE3(world_hash)                                   32 bytes
//! ```
//!
//! A change of the state moves the world hash by the hashes of the changed
//! entries alone. That the hash stays the sum over all entries is
//! [`state::law_world_hash_is_sum_of_entries`]. That the store beside it keeps
//! the same state, also when it refuses a batch, is
//! [`consistency::law_commit_stays_in_step`].
//!
//! What each operation gives, byte by byte and lane by lane, is stated of its
//! inputs and results alone in [`number_laws`], [`hash_laws`] and
//! [`database_laws`].

pub mod account;
pub mod bytes;
pub mod change;
pub mod consistency;
pub mod database_laws;
pub mod entry;
pub mod error;
pub mod hash_laws;
pub mod lattice;
pub mod number_laws;
pub mod outside;
pub mod primitives;
pub mod state;
pub mod state_db;
pub mod store;
pub mod workload;
pub mod world;

pub use account::AccountState;
pub use change::{apply_parallel, apply_sequential, StateChange};
pub use entry::EntryHash;
pub use error::DbError;
pub use lattice::{WORLD_HASH_BYTES, WORLD_HASH_LEN};
pub use primitives::{Address, B256, U256};
pub use state_db::{Commit, StateDb};
pub use workload::{gen_accounts, gen_block, Account, AccountDelta};
pub use world::WorldHash;
