# LtHash StateDB

A lattice hash (LtHash) as the state commitment of a flat key-value store,
written and proved in Verus.

```
entry_hash = BLAKE3_XOF(domain || 0x00 || key || 0x00 || value)   2048 bytes
world_hash = sum of entry_hash_i       (wrapping u16 addition, lane by lane)
state_root = BLAKE3(world_hash)                                   32 bytes
```

A change of the state costs the hashes of the changed entries alone:

```
world_hash += hash(new_kv) - hash(old_kv)
```

## Layout

- `src/lattice.rs`: vectors of 1024 lanes, their arithmetic and byte form
- `src/bytes.rs`, `src/primitives.rs`, `src/account.rs`: numbers, addresses, words and accounts, and their byte forms
- `src/entry.rs`: the hash of a single entry
- `src/world.rs`: the accumulated hash and the state root
- `src/change.rs`: changes of the state, applied in sequence or in parallel
- `src/state.rs`: the state that a world hash commits to
- `src/store.rs`, `src/state_db.rs`: the state database and its requests to a key-value store
- `src/consistency.rs`: store, world hash and state stay in step; reads give back writes
- `src/workload.rs`: generated accounts and blocks
- `src/outside.rs`: the calls into `alloy-primitives`, `blake3`, `rand` and `rayon`
- `app/`: the state database on RocksDB

## What is proved

- The world hash stays the sum of the hashes of all entries of the state
  (`state::law_world_hash_is_sum_of_entries`), so it depends on the state alone
  and not on the way to it (`state::law_history_is_irrelevant`).
- Neither the order of the changes of a batch nor the schedule of the parallel
  computation matters (`change::law_order_of_changes_is_irrelevant`,
  `change::law_bracketing_is_irrelevant`).
- A commit keeps store, world hash and state in step, whether the store carries
  out its batch or refuses it (`consistency::law_commit_stays_in_step`): the
  root moves only once the store has answered.
- A store determines the state that it keeps, so equal stored contents give
  equal roots (`consistency::law_store_determines_state`).
- Reads give back what was written, whatever old values the changes named
  (`consistency::law_reads_follow_any_commit`), and the world hash survives a
  reopen.
- Distinct accounts and slots are hashed from distinct messages (`entry`).
