//! Why the store, the world hash and the state stay in step, and what a read
//! gives back of a write.

use vstd::prelude::*;

use crate::account::{
    account_bytes, law_account_survives_bytes, storage_key, STORAGE_KEY_BYTES,
};
use crate::bytes::{be_bytes, law_value_survives_be_bytes};
use crate::change::{total_delta, StateChange};
use crate::error::DbError;
use crate::lattice::{
    bytes_of_lanes, law_lanes_survive_bytes, lattice_sum, lattice_zero, WORLD_HASH_LEN,
};
use crate::state::{
    law_changes_keep_state_well_formed, law_empty_state_commits_to_zero,
    law_world_hash_is_sum_of_entries, ChainState,
};
use crate::state_db::{
    account_answer, account_answers, account_place, bytecode_place, change_write, change_writes,
    collected, commit_writes, law_batch_read_agrees_with_single_reads, settled_lanes,
    storage_answer, storage_answers, storage_place, world_hash_answer, world_hash_place,
    world_hash_write, write_answer,
};
use crate::store::{
    after_batch, law_last_write_wins, law_untouched_places_keep_their_value, lookup, written,
    written_all, Column, Place, Write,
};

verus! {

/// Whether every key of a store has the form of its column: an address of 20
/// bytes, an address with a slot of 32 bytes, a code hash of 32 bytes, or the
/// key of the world hash.
pub open spec fn follows_schema(store: Map<Place, Seq<u8>>) -> bool {
    forall|place: Place| #[trigger]
        store.contains_key(place) ==> match place.0 {
            Column::Accounts => place.1.len() == 20,
            Column::Storages => place.1.len() == STORAGE_KEY_BYTES,
            Column::Bytecodes => place.1.len() == 32,
            Column::Meta => place == world_hash_place(),
        }
}

/// Whether a store keeps exactly the accounts and slots of a state, under keys
/// of the right form.
pub open spec fn keeps(store: Map<Place, Seq<u8>>, state: ChainState) -> bool {
    &&& follows_schema(store)
    &&& forall|addr: Seq<u8>|
        addr.len() == 20 ==> lookup(store, #[trigger] account_place(addr)) == (match state.account(
            addr,
        ) {
            Some(account) => Some(account_bytes(account)),
            None => None,
        })
    &&& forall|addr: Seq<u8>, slot: Seq<u8>|
        addr.len() == 20 && slot.len() == 32 ==> lookup(
            store,
            #[trigger] storage_place(addr, slot),
        ) == (if state.slot(addr, slot) == 0 {
            None
        } else {
            Some(be_bytes(state.slot(addr, slot), 32))
        })
}

/// Whether a reply is what a store that works answers to a read at a place.
pub open spec fn is_reply<E>(
    reply: Result<Option<Vec<u8>>, E>,
    store: Map<Place, Seq<u8>>,
    place: Place,
) -> bool {
    match reply {
        Ok(Some(bytes)) => lookup(store, place) == Some(bytes@),
        Ok(None) => lookup(store, place) is None,
        Err(_) => false,
    }
}

/// Two slots have the same storage key only if they are the same slot.
pub proof fn law_storage_keys_are_distinct(
    addr1: Seq<u8>,
    slot1: Seq<u8>,
    addr2: Seq<u8>,
    slot2: Seq<u8>,
)
    requires
        addr1.len() == 20,
        addr2.len() == 20,
        storage_key(addr1, slot1) == storage_key(addr2, slot2),
    ensures
        addr1 == addr2,
        slot1 == slot2,
{
    let (key1, key2) = (storage_key(addr1, slot1), storage_key(addr2, slot2));
    assert(key1.subrange(0, 20) =~= addr1);
    assert(key2.subrange(0, 20) =~= addr2);
    assert(key1.skip(20) =~= slot1);
    assert(key2.skip(20) =~= slot2);
}

/// An empty store keeps the empty state.
pub proof fn law_empty_store_keeps_empty_state()
    ensures
        keeps(Map::empty(), ChainState::empty()),
{
}

/// The write of a change takes a store that keeps a state to one that keeps
/// the state after the change.
pub proof fn law_write_follows_change(
    store: Map<Place, Seq<u8>>,
    state: ChainState,
    change: StateChange,
)
    requires
        keeps(store, state),
    ensures
        keeps(written(store, change_write(change)), state.after(change)),
{
    let store2 = written(store, change_write(change));
    let state2 = state.after(change);
    assert forall|addr: Seq<u8>| addr.len() == 20 implies lookup(
        store2,
        #[trigger] account_place(addr),
    ) == (match state2.account(addr) {
        Some(account) => Some(account_bytes(account)),
        None => None,
    }) by {
        assert(lookup(store, account_place(addr)) == (match state.account(addr) {
            Some(account) => Some(account_bytes(account)),
            None => None,
        }));
    }
    assert forall|addr: Seq<u8>, slot: Seq<u8>| addr.len() == 20 && slot.len() == 32 implies lookup(
        store2,
        #[trigger] storage_place(addr, slot),
    ) == (if state2.slot(addr, slot) == 0 {
        None
    } else {
        Some(be_bytes(state2.slot(addr, slot), 32))
    }) by {
        assert(lookup(store, storage_place(addr, slot)) == (if state.slot(addr, slot) == 0 {
            None
        } else {
            Some(be_bytes(state.slot(addr, slot), 32))
        }));
        if let StateChange::Storage { addr: addr2, slot: slot2, old_value, new_value } = change {
            if storage_place(addr, slot) == storage_place(addr2@, slot2@) {
                law_storage_keys_are_distinct(addr, slot, addr2@, slot2@);
            }
        }
    }
}

/// The writes of the changes of a batch take a store that keeps a state to
/// one that keeps the state after the batch.
pub proof fn law_writes_follow_changes(
    store: Map<Place, Seq<u8>>,
    state: ChainState,
    changes: Seq<StateChange>,
)
    requires
        keeps(store, state),
    ensures
        keeps(written_all(store, change_writes(changes)), state.after_all(changes)),
    decreases changes.len(),
{
    if changes.len() > 0 {
        let before = changes.drop_last();
        law_writes_follow_changes(store, state, before);
        assert(change_writes(changes).drop_last() =~= change_writes(before));
        law_write_follows_change(
            written_all(store, change_writes(before)),
            state.after_all(before),
            changes.last(),
        );
    }
}

/// Committing a batch keeps store and state in step, whatever the old values
/// that the changes name, and keeps the world hash beside them.
pub proof fn law_commit_keeps_state(
    store: Map<Place, Seq<u8>>,
    state: ChainState,
    changes: Seq<StateChange>,
    lanes: Seq<u16>,
)
    requires
        keeps(store, state),
    ensures
        keeps(written_all(store, commit_writes(changes, lanes)), state.after_all(changes)),
        lookup(written_all(store, commit_writes(changes, lanes)), world_hash_place()) == Some(
            bytes_of_lanes(lanes),
        ),
{
    law_writes_follow_changes(store, state, changes);
    let writes = commit_writes(changes, lanes);
    assert(writes.drop_last() =~= change_writes(changes));
    let before = written_all(store, change_writes(changes));
    let after = written_all(store, writes);
    assert(after == written(before, world_hash_write(lanes)));
    let state2 = state.after_all(changes);
    assert forall|addr: Seq<u8>| addr.len() == 20 implies lookup(
        after,
        #[trigger] account_place(addr),
    ) == (match state2.account(addr) {
        Some(account) => Some(account_bytes(account)),
        None => None,
    }) by {
        assert(lookup(before, account_place(addr)) == lookup(after, account_place(addr)));
    }
    assert forall|addr: Seq<u8>, slot: Seq<u8>| addr.len() == 20 && slot.len() == 32 implies lookup(
        after,
        #[trigger] storage_place(addr, slot),
    ) == (if state2.slot(addr, slot) == 0 {
        None
    } else {
        Some(be_bytes(state2.slot(addr, slot), 32))
    }) by {
        assert(lookup(before, storage_place(addr, slot)) == lookup(
            after,
            storage_place(addr, slot),
        ));
    }
}

/// Whether store, world hash and state are in step: the store keeps the state,
/// the world hash is the sum of the hashes of all entries of the state, and the
/// store keeps that world hash. A fresh store keeps none, which stands for zero.
pub open spec fn in_step(
    store: Map<Place, Seq<u8>>,
    state: ChainState,
    lanes: Seq<u16>,
) -> bool {
    &&& state.wf()
    &&& keeps(store, state)
    &&& lanes == state.commitment()
    &&& match lookup(store, world_hash_place()) {
        Some(bytes) => bytes == bytes_of_lanes(lanes),
        None => lanes == lattice_zero(),
    }
}

/// A fresh database is in step with the empty state.
pub proof fn law_fresh_database_is_in_step()
    ensures
        in_step(Map::empty(), ChainState::empty(), lattice_zero()),
{
    law_empty_store_keeps_empty_state();
    law_empty_state_commits_to_zero();
}

/// A commit of changes that name the old values truly keeps store, world hash
/// and state in step, whatever the store replies: the whole batch takes effect,
/// or none of it.
pub proof fn law_commit_stays_in_step<E>(
    store: Map<Place, Seq<u8>>,
    state: ChainState,
    lanes: Seq<u16>,
    changes: Seq<StateChange>,
    reply: Result<(), E>,
)
    requires
        in_step(store, state, lanes),
        state.admits_all(changes),
    ensures
        ({
            let next = lattice_sum(lanes, total_delta(changes));
            in_step(
                after_batch(store, commit_writes(changes, next), reply),
                if reply is Ok {
                    state.after_all(changes)
                } else {
                    state
                },
                settled_lanes(lanes, next, reply),
            )
        }),
{
    let next = lattice_sum(lanes, total_delta(changes));
    law_world_hash_is_sum_of_entries(state, changes);
    law_commit_keeps_state(store, state, changes, next);
}

/// A commit that a store with atomic batches refuses changes nothing, neither
/// the world hash, and with it the root, nor any place of the store, and its
/// answer is the error of the store.
pub proof fn law_refused_commit_changes_nothing<E>(
    store: Map<Place, Seq<u8>>,
    lanes: Seq<u16>,
    changes: Seq<StateChange>,
    error: E,
)
    ensures
        ({
            let reply = Err::<(), E>(error);
            let next = lattice_sum(lanes, total_delta(changes));
            &&& write_answer(reply) == Err::<(), DbError<E>>(DbError::RocksDb(error))
            &&& settled_lanes(lanes, next, reply) == lanes
            &&& after_batch(store, commit_writes(changes, next), reply) == store
        }),
{
}

/// Storing a bytecode keeps store, world hash and state in step, whatever the
/// store replies.
pub proof fn law_bytecode_write_stays_in_step<E>(
    store: Map<Place, Seq<u8>>,
    state: ChainState,
    lanes: Seq<u16>,
    code_hash: Seq<u8>,
    code: Seq<u8>,
    reply: Result<(), E>,
)
    requires
        in_step(store, state, lanes),
        code_hash.len() == 32,
    ensures
        ({
            let write = Write { place: bytecode_place(code_hash), value: Some(code) };
            in_step(after_batch(store, seq![write], reply), state, lanes)
        }),
{
    let write = Write { place: bytecode_place(code_hash), value: Some(code) };
    let writes = seq![write];
    assert(writes.drop_last() =~= Seq::<Write>::empty());
    assert(written_all(store, writes.drop_last()) == store);
    let after = written_all(store, writes);
    assert(after == written(store, write));
    assert forall|addr: Seq<u8>| lookup(after, #[trigger] account_place(addr)) == lookup(
        store,
        account_place(addr),
    ) by {
    }
    assert forall|addr: Seq<u8>, slot: Seq<u8>|
        lookup(after, #[trigger] storage_place(addr, slot)) == lookup(
            store,
            storage_place(addr, slot),
        ) by {
    }
}

/// Opening a database on a store gives the world hash with which the store is
/// in step.
pub proof fn law_reopen_stays_in_step<E>(
    store: Map<Place, Seq<u8>>,
    state: ChainState,
    lanes: Seq<u16>,
    reply: Result<Option<Vec<u8>>, E>,
)
    requires
        in_step(store, state, lanes),
        is_reply(reply, store, world_hash_place()),
    ensures
        world_hash_answer(reply) == Ok::<_, DbError<E>>(lanes),
{
    law_lanes_survive_bytes(lanes);
}

/// A store determines the state that it keeps, and so the world hash: equal
/// stored contents give equal roots, whatever the history.
pub proof fn law_store_determines_state(
    store: Map<Place, Seq<u8>>,
    a: ChainState,
    b: ChainState,
)
    requires
        a.wf(),
        b.wf(),
        keeps(store, a),
        keeps(store, b),
    ensures
        a == b,
        a.commitment() == b.commitment(),
{
    assert forall|addr: Seq<u8>| a.account(addr) == b.account(addr) by {
        if addr.len() == 20 {
            assert(lookup(store, account_place(addr)) is Some <==> a.account(addr) is Some);
            if let Some(account) = a.account(addr) {
                assert(a.accounts.contains_key(addr));
                law_account_survives_bytes(account);
            }
            if let Some(account) = b.account(addr) {
                assert(b.accounts.contains_key(addr));
                law_account_survives_bytes(account);
            }
        }
    }
    assert forall|addr: Seq<u8>, slot: Seq<u8>| a.slot(addr, slot) == b.slot(addr, slot) by {
        if addr.len() == 20 && slot.len() == 32 {
            assert(lookup(store, storage_place(addr, slot)) is Some <==> a.slot(addr, slot) != 0);
            if a.slot(addr, slot) != 0 {
                assert(a.storage.contains_key((addr, slot)));
                law_value_survives_be_bytes(a.slot(addr, slot), 32);
            }
            if b.slot(addr, slot) != 0 {
                assert(b.storage.contains_key((addr, slot)));
                law_value_survives_be_bytes(b.slot(addr, slot), 32);
            }
        } else {
            assert(!a.storage.contains_key((addr, slot)));
            assert(!b.storage.contains_key((addr, slot)));
        }
    }
    assert forall|addr: Seq<u8>|
        a.accounts.contains_key(addr) == b.accounts.contains_key(addr) && (
        a.accounts.contains_key(addr) ==> a.accounts[addr] == b.accounts[addr]) by {
        assert(a.account(addr) == b.account(addr));
    }
    assert forall|key: (Seq<u8>, Seq<u8>)|
        a.storage.contains_key(key) == b.storage.contains_key(key) && (a.storage.contains_key(key)
            ==> a.storage[key] == b.storage[key]) by {
        assert(a.slot(key.0, key.1) == b.slot(key.0, key.1));
        assert(key == (key.0, key.1));
    }
    assert(a.accounts =~= b.accounts);
    assert(a.storage =~= b.storage);
}

/// A state determines what a store that keeps it holds of accounts and slots.
pub proof fn law_state_determines_store(
    state: ChainState,
    a: Map<Place, Seq<u8>>,
    b: Map<Place, Seq<u8>>,
    place: Place,
)
    requires
        keeps(a, state),
        keeps(b, state),
        place.0 is Accounts || place.0 is Storages,
    ensures
        lookup(a, place) == lookup(b, place),
{
    let (column, key) = place;
    if column is Accounts {
        if key.len() == 20 {
            assert(place == account_place(key));
        }
    } else if key.len() == STORAGE_KEY_BYTES {
        let (addr, slot) = (key.subrange(0, 20), key.subrange(20, 52));
        assert(storage_key(addr, slot) =~= key);
        assert(place == storage_place(addr, slot));
    }
}

/// Reading an account from a store that keeps a state gives the account of
/// the state.
pub proof fn law_account_reads_back<E>(
    store: Map<Place, Seq<u8>>,
    state: ChainState,
    addr: Seq<u8>,
    reply: Result<Option<Vec<u8>>, E>,
)
    requires
        state.wf(),
        keeps(store, state),
        addr.len() == 20,
        is_reply(reply, store, account_place(addr)),
    ensures
        account_answer(reply) == Ok::<_, DbError<E>>(state.account(addr)),
{
    if let Some(account) = state.account(addr) {
        assert(state.accounts.contains_key(addr));
        law_account_survives_bytes(account);
    }
}

/// Reading a slot from a store that keeps a state gives the value of the slot
/// in the state, and zero for an absent slot.
pub proof fn law_storage_reads_back<E>(
    store: Map<Place, Seq<u8>>,
    state: ChainState,
    addr: Seq<u8>,
    slot: Seq<u8>,
    reply: Result<Option<Vec<u8>>, E>,
)
    requires
        state.wf(),
        keeps(store, state),
        addr.len() == 20,
        slot.len() == 32,
        is_reply(reply, store, storage_place(addr, slot)),
    ensures
        storage_answer(reply) == Ok::<_, DbError<E>>(state.slot(addr, slot)),
{
    if state.slot(addr, slot) != 0 {
        assert(state.storage.contains_key((addr, slot)));
        law_value_survives_be_bytes(state.slot(addr, slot), 32);
    }
}

/// A batch read of accounts from a store that keeps a state gives the accounts
/// of the state, in the order of the addresses.
pub proof fn law_accounts_read_back<E>(
    store: Map<Place, Seq<u8>>,
    state: ChainState,
    addrs: Seq<Seq<u8>>,
    replies: Seq<Result<Option<Vec<u8>>, E>>,
)
    requires
        state.wf(),
        keeps(store, state),
        replies.len() == addrs.len(),
        forall|i: int|
            0 <= i < addrs.len() ==> {
                &&& (#[trigger] addrs[i]).len() == 20
                &&& is_reply(replies[i], store, account_place(addrs[i]))
            },
    ensures
        collected(account_answers(replies)) == Ok::<_, DbError<E>>(
            Seq::new(addrs.len(), |i: int| state.account(addrs[i])),
        ),
{
    let answers = account_answers(replies);
    assert forall|i: int| 0 <= i < answers.len() implies #[trigger] answers[i] == Ok::<
        _,
        DbError<E>,
    >(state.account(addrs[i])) by {
        law_account_reads_back(store, state, addrs[i], replies[i]);
    }
    law_batch_read_agrees_with_single_reads(answers);
    let values = collected(answers)->Ok_0;
    assert forall|i: int| 0 <= i < values.len() implies values[i] == state.account(addrs[i]) by {
        assert(answers[i] == Ok::<_, DbError<E>>(values[i]));
    }
    assert(values =~= Seq::new(addrs.len(), |i: int| state.account(addrs[i])));
}

/// A batch read of slots from a store that keeps a state gives the values of
/// the slots in the state, in the order of the keys.
pub proof fn law_slots_read_back<E>(
    store: Map<Place, Seq<u8>>,
    state: ChainState,
    keys: Seq<(Seq<u8>, Seq<u8>)>,
    replies: Seq<Result<Option<Vec<u8>>, E>>,
)
    requires
        state.wf(),
        keeps(store, state),
        replies.len() == keys.len(),
        forall|i: int|
            0 <= i < keys.len() ==> {
                &&& (#[trigger] keys[i]).0.len() == 20
                &&& keys[i].1.len() == 32
                &&& is_reply(replies[i], store, storage_place(keys[i].0, keys[i].1))
            },
    ensures
        collected(storage_answers(replies)) == Ok::<_, DbError<E>>(
            Seq::new(keys.len(), |i: int| state.slot(keys[i].0, keys[i].1)),
        ),
{
    let answers = storage_answers(replies);
    assert forall|i: int| 0 <= i < answers.len() implies #[trigger] answers[i] == Ok::<
        _,
        DbError<E>,
    >(state.slot(keys[i].0, keys[i].1)) by {
        law_storage_reads_back(store, state, keys[i].0, keys[i].1, replies[i]);
    }
    law_batch_read_agrees_with_single_reads(answers);
    let values = collected(answers)->Ok_0;
    assert forall|i: int| 0 <= i < values.len() implies values[i] == state.slot(
        keys[i].0,
        keys[i].1,
    ) by {
        assert(answers[i] == Ok::<_, DbError<E>>(values[i]));
    }
    assert(values =~= Seq::new(keys.len(), |i: int| state.slot(keys[i].0, keys[i].1)));
}

/// After a commit, reads give the accounts and slots of the state after the
/// changes, or of the state as it was if the store refused the batch. No such
/// read fails. The old values that the changes name play no part in it, nor
/// does the world hash that is kept beside them.
pub proof fn law_reads_follow_any_commit<E>(
    store: Map<Place, Seq<u8>>,
    state: ChainState,
    changes: Seq<StateChange>,
    lanes: Seq<u16>,
    outcome: Result<(), E>,
)
    requires
        state.wf(),
        keeps(store, state),
    ensures
        ({
            let store2 = after_batch(store, commit_writes(changes, lanes), outcome);
            let state2 = if outcome is Ok {
                state.after_all(changes)
            } else {
                state
            };
            &&& state2.wf()
            &&& keeps(store2, state2)
            &&& forall|addr: Seq<u8>, reply: Result<Option<Vec<u8>>, E>|
                addr.len() == 20 && #[trigger] is_reply(reply, store2, account_place(addr))
                    ==> account_answer(reply) == Ok::<_, DbError<E>>(state2.account(addr))
            &&& forall|addr: Seq<u8>, slot: Seq<u8>, reply: Result<Option<Vec<u8>>, E>|
                addr.len() == 20 && slot.len() == 32 && #[trigger] is_reply(
                    reply,
                    store2,
                    storage_place(addr, slot),
                ) ==> storage_answer(reply) == Ok::<_, DbError<E>>(state2.slot(addr, slot))
        }),
{
    let store2 = after_batch(store, commit_writes(changes, lanes), outcome);
    let state2 = if outcome is Ok {
        state.after_all(changes)
    } else {
        state
    };
    law_changes_keep_state_well_formed(state, changes);
    law_commit_keeps_state(store, state, changes, lanes);
    assert forall|addr: Seq<u8>, reply: Result<Option<Vec<u8>>, E>|
        addr.len() == 20 && #[trigger] is_reply(
            reply,
            store2,
            account_place(addr),
        ) implies account_answer(reply) == Ok::<_, DbError<E>>(state2.account(addr)) by {
        law_account_reads_back(store2, state2, addr, reply);
    }
    assert forall|addr: Seq<u8>, slot: Seq<u8>, reply: Result<Option<Vec<u8>>, E>|
        addr.len() == 20 && slot.len() == 32 && #[trigger] is_reply(
            reply,
            store2,
            storage_place(addr, slot),
        ) implies storage_answer(reply) == Ok::<_, DbError<E>>(state2.slot(addr, slot)) by {
        law_storage_reads_back(store2, state2, addr, slot, reply);
    }
}

/// Opening a database on a committed store gives the world hash that was
/// committed.
pub proof fn law_world_hash_survives_reopen<E>(
    store: Map<Place, Seq<u8>>,
    changes: Seq<StateChange>,
    lanes: Seq<u16>,
    reply: Result<Option<Vec<u8>>, E>,
)
    requires
        lanes.len() == WORLD_HASH_LEN,
        is_reply(reply, written_all(store, commit_writes(changes, lanes)), world_hash_place()),
    ensures
        world_hash_answer(reply) == Ok::<_, DbError<E>>(lanes),
{
    let writes = commit_writes(changes, lanes);
    law_last_write_wins(store, writes, changes.len() as int);
    law_lanes_survive_bytes(lanes);
}

/// What is read at the place of a change is what the last change of the batch
/// at that place put there.
pub proof fn law_last_change_wins(
    store: Map<Place, Seq<u8>>,
    changes: Seq<StateChange>,
    lanes: Seq<u16>,
    at: int,
)
    requires
        0 <= at < changes.len(),
        forall|i: int|
            at < i < changes.len() ==> change_write(#[trigger] changes[i]).place != change_write(
                changes[at],
            ).place,
    ensures
        lookup(
            written_all(store, commit_writes(changes, lanes)),
            change_write(changes[at]).place,
        ) == change_write(changes[at]).value,
{
    let writes = commit_writes(changes, lanes);
    assert(writes[at] == change_write(changes[at]));
    assert forall|i: int| at < i < writes.len() implies (#[trigger] writes[i]).place
        != writes[at].place by {
        if i < changes.len() {
            assert(writes[i] == change_write(changes[i]));
        }
    }
    law_last_write_wins(store, writes, at);
}

/// A stored bytecode is read back, and committing a batch leaves it alone.
pub proof fn law_bytecode_reads_back(
    store: Map<Place, Seq<u8>>,
    code_hash: Seq<u8>,
    code: Seq<u8>,
    changes: Seq<StateChange>,
    lanes: Seq<u16>,
)
    ensures
        ({
            let stored = written(
                store,
                Write { place: bytecode_place(code_hash), value: Some(code) },
            );
            &&& lookup(stored, bytecode_place(code_hash)) == Some(code)
            &&& lookup(
                written_all(stored, commit_writes(changes, lanes)),
                bytecode_place(code_hash),
            ) == Some(code)
        }),
{
    let stored = written(store, Write { place: bytecode_place(code_hash), value: Some(code) });
    let writes = commit_writes(changes, lanes);
    assert forall|i: int| 0 <= i < writes.len() implies (#[trigger] writes[i]).place
        != bytecode_place(code_hash) by {
        if i < changes.len() {
            assert(writes[i] == change_write(changes[i]));
        }
    }
    law_untouched_places_keep_their_value(stored, writes, bytecode_place(code_hash));
}

} // verus!
