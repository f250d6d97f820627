//! What the operations of the state database give: the place that each request
//! names, each write of a batch, and the answer to each reply, in terms of the
//! inputs alone.

use vstd::arithmetic::power::pow;
use vstd::prelude::*;

use crate::account::{account_view, AccountState};
use crate::change::{apply_sequential, StateChange};
use crate::error::DbError;
use crate::lattice::law_bytes_survive_lanes;
use crate::number_laws::{
    law_account_bytes_hold_every_field, law_be_bytes_are_digits, law_be_value_has_digits,
    law_bytes_of_account_view,
};
use crate::outside::blake3_digest;
use crate::primitives::{Address, B256, U256};
use crate::state_db::{
    account_answers, account_views, change_write, collected, commit_writes,
    law_batch_read_agrees_with_single_reads, number_views, storage_answers, Commit, StateDb,
    META_WORLD_HASH,
};
use crate::store::{
    batch_view, law_last_write_wins, law_untouched_places_keep_their_value, lookup, written,
    written_all, Column, Place, ReadRequest, Write, WriteOp,
};
use crate::world::WorldHash;

verus! {

/// The names of the column families.
pub proof fn law_column_names(
    accounts: &'static str,
    storages: &'static str,
    bytecodes: &'static str,
    meta: &'static str,
)
    requires
        call_ensures(Column::name, (&Column::Accounts,), accounts),
        call_ensures(Column::name, (&Column::Storages,), storages),
        call_ensures(Column::name, (&Column::Bytecodes,), bytecodes),
        call_ensures(Column::name, (&Column::Meta,), meta),
    ensures
        accounts@ == "accounts"@,
        storages@ == "storages"@,
        bytecodes@ == "bytecodes"@,
        meta@ == "meta"@,
{
}

/// Each read asks for one place: the column of its kind, and the whole address,
/// the whole address and slot, the whole code hash, or `world_hash`.
pub proof fn law_requests_name_their_place(
    addr: Address,
    slot: B256,
    code_hash: B256,
    account: ReadRequest,
    storage: ReadRequest,
    bytecode: ReadRequest,
    world_hash: ReadRequest,
)
    requires
        call_ensures(StateDb::account_request, (&addr,), account),
        call_ensures(StateDb::storage_request, (&addr, &slot), storage),
        call_ensures(StateDb::bytecode_request, (&code_hash,), bytecode),
        call_ensures(StateDb::world_hash_request, (), world_hash),
    ensures
        account.column is Accounts,
        account.key@ == addr.0@,
        storage.column is Storages,
        storage.key@ == addr.0@ + slot.0@,
        bytecode.column is Bytecodes,
        bytecode.key@ == code_hash.0@,
        world_hash.column is Meta,
        world_hash.key@ == seq![
            0x77u8, 0x6f, 0x72, 0x6c, 0x64, 0x5f, 0x68, 0x61, 0x73, 0x68,
        ],
{
    let name = META_WORLD_HASH;
    assert(name@ =~= seq![0x77u8, 0x6f, 0x72, 0x6c, 0x64, 0x5f, 0x68, 0x61, 0x73, 0x68]);
}

/// A batch read asks for the places of its addresses or slots, in order.
pub proof fn law_batch_requests_name_their_places(
    addrs: &[Address],
    accounts: Vec<ReadRequest>,
    keys: &[(Address, B256)],
    slots: Vec<ReadRequest>,
)
    requires
        call_ensures(StateDb::account_requests, (addrs,), accounts),
        call_ensures(StateDb::storage_requests, (keys,), slots),
    ensures
        accounts@.len() == addrs@.len(),
        forall|i: int|
            0 <= i < addrs@.len() ==> (#[trigger] accounts@[i]).column is Accounts
                && accounts@[i].key@ == addrs@[i].0@,
        slots@.len() == keys@.len(),
        forall|i: int|
            0 <= i < keys@.len() ==> (#[trigger] slots@[i]).column is Storages
                && slots@[i].key@ == keys@[i].0.0@ + keys@[i].1.0@,
{
    assert forall|i: int| 0 <= i < addrs@.len() implies (#[trigger] accounts@[i]).column is Accounts
        && accounts@[i].key@ == addrs@[i].0@ by {
        assert(accounts@[i]@ == crate::state_db::account_place(addrs@[i]@));
    }
    assert forall|i: int| 0 <= i < keys@.len() implies (#[trigger] slots@[i]).column is Storages
        && slots@[i].key@ == keys@[i].0.0@ + keys@[i].1.0@ by {
        assert(slots@[i]@ == crate::state_db::storage_place(keys@[i].0@, keys@[i].1@));
    }
}

/// Opening a database gives the world hash whose bytes the store keeps, zero if
/// it keeps none, and an error if it fails or keeps another length.
pub proof fn law_opened_database<E>(
    reply: Result<Option<Vec<u8>>, E>,
    db: Result<StateDb, DbError<E>>,
)
    requires
        call_ensures(StateDb::open::<E>, (reply,), db),
    ensures
        match reply {
            Err(error) => db == Err::<StateDb, _>(DbError::RocksDb(error)),
            Ok(None) => {
                &&& db is Ok
                &&& db->Ok_0@.len() == 1024
                &&& forall|i: int| 0 <= i < 1024 ==> #[trigger] db->Ok_0@[i] == 0
            },
            Ok(Some(bytes)) => if bytes@.len() == 2048 {
                &&& db is Ok
                &&& db->Ok_0@.len() == 1024
                &&& forall|i: int|
                    0 <= i < 1024 ==> #[trigger] db->Ok_0@[i] == bytes@[2 * i] + 0x100 * bytes@[2
                        * i + 1]
            } else {
                db == Err::<StateDb, _>(
                    DbError::<E>::CorruptWorldHash {
                        expected: 2048,
                        got: bytes@.len() as usize,
                    },
                )
            },
        },
{
}

/// The root of a database is the BLAKE3 digest of the 2048 bytes that hold its
/// lanes, the low byte of each lane first.
pub proof fn law_database_root_covers_every_lane(db: StateDb, root: B256, bytes: Seq<u8>)
    requires
        call_ensures(StateDb::state_root, (&db,), root),
        bytes.len() == 2048,
        forall|i: int|
            0 <= i < 1024 ==> #[trigger] db@[i] == bytes[2 * i] + 0x100 * bytes[2 * i + 1],
    ensures
        root.0@ == blake3_digest(bytes),
{
    broadcast use crate::state_db::law_state_db_lane_count;

    assert(db@ =~= crate::lattice::lanes_of_bytes(bytes));
    law_bytes_survive_lanes(bytes);
}

/// A reopened database has the digest of the kept bytes for root.
pub proof fn law_reopened_root_is_digest_of_kept_bytes<E>(
    reply: Result<Option<Vec<u8>>, E>,
    db: StateDb,
    root: B256,
)
    requires
        reply matches Ok(Some(bytes)) && bytes@.len() == 2048,
        call_ensures(StateDb::open::<E>, (reply,), Ok(db)),
        call_ensures(StateDb::state_root, (&db,), root),
    ensures
        reply matches Ok(Some(bytes)) && root.0@ == blake3_digest(bytes@),
{
    if let Ok(Some(bytes)) = reply {
        law_bytes_survive_lanes(bytes@);
    }
}

/// Reading an account answers absence with `None` and 72 bytes with the account
/// whose fields they hold. Anything else is an error.
pub proof fn law_account_answer<E>(
    reply: Result<Option<Vec<u8>>, E>,
    account: Result<Option<AccountState>, DbError<E>>,
)
    requires
        call_ensures(StateDb::get_account::<E>, (reply,), account),
    ensures
        match reply {
            Err(error) => account == Err::<Option<AccountState>, _>(DbError::RocksDb(error)),
            Ok(None) => account == Ok::<_, DbError<E>>(None::<AccountState>),
            Ok(Some(bytes)) => if bytes@.len() == 72 {
                &&& account is Ok
                &&& account->Ok_0 is Some
                &&& forall|k: int|
                    0 <= k < 8 ==> (account->Ok_0->Some_0.nonce as int / pow(256, k as nat)) % 256
                        == #[trigger] bytes@[k]
                &&& forall|k: int|
                    8 <= k < 40 ==> (account->Ok_0->Some_0.balance@ as int / pow(
                        256,
                        (k - 8) as nat,
                    )) % 256 == #[trigger] bytes@[k]
                &&& forall|k: int|
                    40 <= k < 72 ==> account->Ok_0->Some_0.code_hash.0@[k - 40]
                        == #[trigger] bytes@[k]
            } else {
                account == Err::<Option<AccountState>, _>(
                    DbError::<E>::CorruptAccount(bytes@.len() as usize),
                )
            },
        },
{
    if let Ok(Some(bytes)) = reply {
        if bytes@.len() == 72 {
            law_bytes_of_account_view(bytes@);
            let read = account->Ok_0->Some_0;
            assert(read@ == crate::account::account_of_bytes(bytes@));
        }
    }
}

/// Reading a slot answers absence with zero and 32 bytes with the number that
/// they hold, the most significant byte first. Anything else is an error.
pub proof fn law_storage_answer<E>(
    reply: Result<Option<Vec<u8>>, E>,
    value: Result<U256, DbError<E>>,
)
    requires
        call_ensures(StateDb::get_storage::<E>, (reply,), value),
    ensures
        match reply {
            Err(error) => value == Err::<U256, _>(DbError::RocksDb(error)),
            Ok(None) => value is Ok && value->Ok_0@ == 0,
            Ok(Some(bytes)) => if bytes@.len() == 32 {
                &&& value is Ok
                &&& forall|k: int|
                    0 <= k < 32 ==> (value->Ok_0@ as int / pow(256, (31 - k) as nat)) % 256
                        == #[trigger] bytes@[k]
            } else {
                value == Err::<U256, _>(DbError::<E>::CorruptStorage(bytes@.len() as usize))
            },
        },
{
    if let Ok(Some(bytes)) = reply {
        law_be_value_has_digits(bytes@);
    }
}

/// Reading a bytecode answers what the store holds, or the error of the store.
pub proof fn law_bytecode_answer<E>(
    reply: Result<Option<Vec<u8>>, E>,
    code: Result<Option<Vec<u8>>, DbError<E>>,
)
    requires
        call_ensures(StateDb::get_bytecode::<E>, (reply,), code),
    ensures
        reply matches Err(error) ==> code == Err::<Option<Vec<u8>>, _>(DbError::RocksDb(error)),
        reply matches Ok(stored) ==> code == Ok::<_, DbError<E>>(stored),
{
}

/// A batch read of accounts gives what the single reads give, in order, or the
/// first of their errors.
pub proof fn law_batch_account_read_is_single_reads<E>(
    replies: Vec<Result<Option<Vec<u8>>, E>>,
    singles: Seq<Result<Option<AccountState>, DbError<E>>>,
    accounts: Result<Vec<Option<AccountState>>, DbError<E>>,
)
    requires
        call_ensures(StateDb::multi_get_accounts::<E>, (replies,), accounts),
        singles.len() == replies@.len(),
        forall|i: int|
            0 <= i < singles.len() ==> call_ensures(
                StateDb::get_account::<E>,
                (replies@[i],),
                #[trigger] singles[i],
            ),
    ensures
        match accounts {
            Ok(accounts) => {
                &&& accounts@.len() == singles.len()
                &&& forall|i: int|
                    0 <= i < singles.len() ==> {
                        &&& (#[trigger] singles[i]) is Ok
                        &&& match (singles[i]->Ok_0, accounts@[i]) {
                            (None, None) => true,
                            (Some(a), Some(b)) => {
                                &&& a.nonce == b.nonce
                                &&& a.balance@ == b.balance@
                                &&& a.code_hash.0@ == b.code_hash.0@
                            },
                            _ => false,
                        }
                    }
            },
            Err(error) => exists|i: int|
                {
                    &&& 0 <= i < singles.len()
                    &&& #[trigger] singles[i] == Err::<Option<AccountState>, _>(error)
                    &&& forall|j: int| 0 <= j < i ==> (#[trigger] singles[j]) is Ok
                },
        },
{
    let answers = account_answers(replies@);
    law_batch_read_agrees_with_single_reads(answers);
    assert forall|i: int| 0 <= i < singles.len() implies (match (#[trigger] singles[i], answers[i]) {
        (Ok(account), Ok(value)) => account_view(account) == value,
        (Err(error), Err(expected)) => error == expected,
        _ => false,
    }) by {
        assert(call_ensures(StateDb::get_account::<E>, (replies@[i],), singles[i]));
    }
    match accounts {
        Ok(accounts) => {
            let values = collected(answers)->Ok_0;
            assert(account_views(accounts@) == values);
            assert(accounts@.len() == account_views(accounts@).len());
            assert forall|i: int| 0 <= i < singles.len() implies {
                &&& (#[trigger] singles[i]) is Ok
                &&& account_view(singles[i]->Ok_0) == account_view(accounts@[i])
            } by {
                assert(answers[i] == Ok::<_, DbError<E>>(values[i]));
                assert(account_views(accounts@)[i] == account_view(accounts@[i]));
            }
            assert forall|i: int| 0 <= i < singles.len() implies {
                &&& (#[trigger] singles[i]) is Ok
                &&& match (singles[i]->Ok_0, accounts@[i]) {
                    (None, None) => true,
                    (Some(a), Some(b)) => {
                        &&& a.nonce == b.nonce
                        &&& a.balance@ == b.balance@
                        &&& a.code_hash.0@ == b.code_hash.0@
                    },
                    _ => false,
                }
            } by {
                let (single, kept) = (singles[i]->Ok_0, accounts@[i]);
                assert(account_view(single) == account_view(kept));
                if let Some(a) = single {
                    if let Some(b) = kept {
                        assert(a@ == b@);
                        assert(a@.code_hash == b@.code_hash);
                    }
                }
            }
        },
        Err(error) => {
            let i = choose|i: int|
                {
                    &&& 0 <= i < answers.len()
                    &&& #[trigger] answers[i] == Err::<
                        Option<crate::account::AccountView>,
                        DbError<E>,
                    >(error)
                    &&& forall|j: int| 0 <= j < i ==> (#[trigger] answers[j]) is Ok
                };
            assert(singles[i] == Err::<Option<AccountState>, _>(error));
            assert forall|j: int| 0 <= j < i implies (#[trigger] singles[j]) is Ok by {
                assert(answers[j] is Ok);
            }
        },
    }
}

/// A batch read of slots gives what the single reads give, in order, or the
/// first of their errors.
pub proof fn law_batch_storage_read_is_single_reads<E>(
    replies: Vec<Result<Option<Vec<u8>>, E>>,
    singles: Seq<Result<U256, DbError<E>>>,
    values: Result<Vec<U256>, DbError<E>>,
)
    requires
        call_ensures(StateDb::multi_get_storage::<E>, (replies,), values),
        singles.len() == replies@.len(),
        forall|i: int|
            0 <= i < singles.len() ==> call_ensures(
                StateDb::get_storage::<E>,
                (replies@[i],),
                #[trigger] singles[i],
            ),
    ensures
        match values {
            Ok(values) => {
                &&& values@.len() == singles.len()
                &&& forall|i: int|
                    0 <= i < singles.len() ==> (#[trigger] singles[i]) is Ok && singles[i]->Ok_0@
                        == values@[i]@
            },
            Err(error) => exists|i: int|
                {
                    &&& 0 <= i < singles.len()
                    &&& #[trigger] singles[i] == Err::<U256, _>(error)
                    &&& forall|j: int| 0 <= j < i ==> (#[trigger] singles[j]) is Ok
                },
        },
{
    let answers = storage_answers(replies@);
    law_batch_read_agrees_with_single_reads(answers);
    assert forall|i: int| 0 <= i < singles.len() implies (match (#[trigger] singles[i], answers[i]) {
        (Ok(value), Ok(expected)) => value@ == expected,
        (Err(error), Err(expected)) => error == expected,
        _ => false,
    }) by {
        assert(call_ensures(StateDb::get_storage::<E>, (replies@[i],), singles[i]));
    }
    match values {
        Ok(values) => {
            let expected = collected(answers)->Ok_0;
            assert(number_views(values@) == expected);
            assert(values@.len() == number_views(values@).len());
            assert forall|i: int| 0 <= i < singles.len() implies (#[trigger] singles[i]) is Ok
                && singles[i]->Ok_0@ == values@[i]@ by {
                assert(answers[i] == Ok::<_, DbError<E>>(expected[i]));
                assert(number_views(values@)[i] == values@[i]@);
            }
        },
        Err(error) => {
            let i = choose|i: int|
                {
                    &&& 0 <= i < answers.len()
                    &&& #[trigger] answers[i] == Err::<nat, DbError<E>>(error)
                    &&& forall|j: int| 0 <= j < i ==> (#[trigger] answers[j]) is Ok
                };
            assert(singles[i] == Err::<U256, _>(error));
            assert forall|j: int| 0 <= j < i implies (#[trigger] singles[j]) is Ok by {
                assert(answers[j] is Ok);
            }
        },
    }
}

/// The batch of a commit, and the batch that keeps changes with a world hash,
/// hold one write for each change, in order, and one more. An account is put
/// under its address with all its fields, or removed there. A slot is put under
/// its address and slot with its whole value, or removed there if that is zero.
pub proof fn law_batch_holds_each_change(
    db: StateDb,
    next: WorldHash,
    changes: &[StateChange],
    flushed: Vec<WriteOp>,
    commit: Commit,
    slice: &[WriteOp],
    batch: Seq<WriteOp>,
    i: int,
)
    requires
        ({
            ||| call_ensures(StateDb::flush_changes, (&next, changes), flushed) && batch
                == flushed@
            ||| {
                &&& call_ensures(StateDb::apply, (&db, changes), commit) || call_ensures(
                    StateDb::apply_parallel,
                    (&db, changes),
                    commit,
                )
                &&& call_ensures(Commit::batch, (&commit,), slice)
                &&& batch == slice@
            }
        }),
        0 <= i < changes@.len(),
    ensures
        batch.len() == changes@.len() + 1,
        match changes@[i] {
            StateChange::Account { addr, old, new } => {
                &&& batch[i] matches WriteOp::Put { column, key, value }
                &&& column is Accounts
                &&& key@ == addr.0@
                &&& value@.len() == 72
                &&& forall|k: int|
                    0 <= k < 8 ==> #[trigger] value@[k] == (new.nonce as int / pow(256, k as nat))
                        % 256
                &&& forall|k: int|
                    8 <= k < 40 ==> #[trigger] value@[k] == (new.balance@ as int / pow(
                        256,
                        (k - 8) as nat,
                    )) % 256
                &&& forall|k: int|
                    40 <= k < 72 ==> #[trigger] value@[k] == new.code_hash.0@[k - 40]
            },
            StateChange::DeleteAccount { addr, old } => {
                &&& batch[i] matches WriteOp::Delete { column, key }
                &&& column is Accounts
                &&& key@ == addr.0@
            },
            StateChange::Storage { addr, slot, old_value, new_value } => if new_value@ == 0 {
                &&& batch[i] matches WriteOp::Delete { column, key }
                &&& column is Storages
                &&& key@ == addr.0@ + slot.0@
            } else {
                &&& batch[i] matches WriteOp::Put { column, key, value }
                &&& column is Storages
                &&& key@ == addr.0@ + slot.0@
                &&& value@.len() == 32
                &&& forall|k: int|
                    0 <= k < 32 ==> #[trigger] value@[k] == (new_value@ as int / pow(
                        256,
                        (31 - k) as nat,
                    )) % 256
            },
        },
{
    let lanes = if batch_view(batch) == commit_writes(changes@, next@) {
        next@
    } else {
        commit.lanes()
    };
    assert(batch_view(batch) == commit_writes(changes@, lanes));
    assert(batch.len() == batch_view(batch).len());
    assert(batch_view(batch)[i] == batch[i]@);
    assert(batch[i]@ == change_write(changes@[i]));
    match changes@[i] {
        StateChange::Account { addr, old, new } => {
            law_account_bytes_hold_every_field(new@);
        },
        StateChange::DeleteAccount { addr, old } => {},
        StateChange::Storage { addr, slot, old_value, new_value } => {
            assert forall|k: int| 0 <= k < 32 implies #[trigger] crate::bytes::be_bytes(
                new_value@,
                32,
            )[k] == (new_value@ as int / pow(256, (31 - k) as nat)) % 256 by {
                law_be_bytes_are_digits(new_value@, 32, k);
            }
            law_be_bytes_are_digits(new_value@, 32, 0);
        },
    }
}

/// The last write of a batch keeps the world hash under `world_hash`, each lane
/// with its low byte first.
pub proof fn law_batch_keeps_world_hash(
    next: WorldHash,
    changes: &[StateChange],
    batch: Vec<WriteOp>,
)
    requires
        call_ensures(StateDb::flush_changes, (&next, changes), batch),
    ensures
        batch@.len() == changes@.len() + 1,
        ({
            &&& batch@[changes@.len() as int] matches WriteOp::Put { column, key, value }
            &&& column is Meta
            &&& key@ == seq![0x77u8, 0x6f, 0x72, 0x6c, 0x64, 0x5f, 0x68, 0x61, 0x73, 0x68]
            &&& value@.len() == 2048
            &&& forall|i: int|
                0 <= i < 1024 ==> #[trigger] next@[i] == value@[2 * i] + 0x100 * value@[2 * i + 1]
        }),
{
    lemma_world_hash_write(changes@, next@, batch@);
}

/// The last write of a commit keeps the world hash that the changes lead to from
/// that of the database.
pub proof fn law_commit_keeps_moved_world_hash(
    db: StateDb,
    world: &mut WorldHash,
    changes: &[StateChange],
    commit: Commit,
    batch: &[WriteOp],
)
    requires
        call_ensures(StateDb::apply, (&db, changes), commit) || call_ensures(
            StateDb::apply_parallel,
            (&db, changes),
            commit,
        ),
        call_ensures(Commit::batch, (&commit,), batch),
        call_ensures(apply_sequential, (world, changes), ()),
        old(world)@ == db@,
    ensures
        batch@.len() == changes@.len() + 1,
        ({
            &&& batch@[changes@.len() as int] matches WriteOp::Put { column, key, value }
            &&& column is Meta
            &&& key@ == seq![0x77u8, 0x6f, 0x72, 0x6c, 0x64, 0x5f, 0x68, 0x61, 0x73, 0x68]
            &&& value@.len() == 2048
            &&& forall|i: int|
                0 <= i < 1024 ==> #[trigger] final(world)@[i] == value@[2 * i] + 0x100 * value@[2
                    * i + 1]
        }),
{
    lemma_world_hash_write(changes@, final(world)@, batch@);
}

proof fn lemma_world_hash_write(changes: Seq<StateChange>, lanes: Seq<u16>, batch: Seq<WriteOp>)
    requires
        batch_view(batch) == commit_writes(changes, lanes),
    ensures
        batch.len() == changes.len() + 1,
        ({
            &&& batch[changes.len() as int] matches WriteOp::Put { column, key, value }
            &&& column is Meta
            &&& key@ == seq![0x77u8, 0x6f, 0x72, 0x6c, 0x64, 0x5f, 0x68, 0x61, 0x73, 0x68]
            &&& value@.len() == 2048
            &&& forall|i: int|
                0 <= i < 1024 ==> #[trigger] lanes[i] == value@[2 * i] + 0x100 * value@[2 * i + 1]
        }),
{
    let last = changes.len() as int;
    assert(batch.len() == batch_view(batch).len());
    assert(batch_view(batch)[last] == batch[last]@);
    let name = META_WORLD_HASH;
    assert(name@ =~= seq![0x77u8, 0x6f, 0x72, 0x6c, 0x64, 0x5f, 0x68, 0x61, 0x73, 0x68]);
    if let WriteOp::Put { column, key, value } = batch[last] {
        let bytes = crate::lattice::bytes_of_lanes(lanes);
        assert(value@ == bytes);
        assert forall|i: int| 0 <= i < 1024 implies #[trigger] lanes[i] == value@[2 * i] + 0x100
            * value@[2 * i + 1] by {
            assert(bytes[2 * i] == (lanes[i] % 0x100) as u8);
            assert(bytes[2 * i + 1] == (lanes[i] / 0x100) as u8);
        }
    }
}

/// A commit that the store carries out moves the world hash to where the changes
/// lead it. A commit that the store refuses leaves it, and the answer is the
/// error of the store.
pub proof fn law_settled_commit<E>(
    before: StateDb,
    db: &mut StateDb,
    world: &mut WorldHash,
    changes: &[StateChange],
    commit: Commit,
    reply: Result<(), E>,
    result: Result<(), DbError<E>>,
)
    requires
        call_ensures(StateDb::apply, (&before, changes), commit) || call_ensures(
            StateDb::apply_parallel,
            (&before, changes),
            commit,
        ),
        call_ensures(StateDb::settle::<E>, (db, commit, reply), result),
        call_ensures(apply_sequential, (world, changes), ()),
        old(db)@ == before@,
        old(world)@ == before@,
    ensures
        reply is Ok ==> result == Ok::<(), DbError<E>>(()) && final(db)@ == final(world)@,
        reply matches Err(error) ==> {
            &&& result == Err::<(), DbError<E>>(DbError::RocksDb(error))
            &&& final(db)@ == old(db)@
        },
{
}

/// Storing a bytecode puts the whole code under the whole code hash, and its
/// answer is that of the store.
pub proof fn law_stored_bytecode<E>(
    code_hash: B256,
    code: &[u8],
    write: WriteOp,
    reply: Result<(), E>,
    result: Result<(), DbError<E>>,
)
    requires
        call_ensures(StateDb::put_bytecode, (&code_hash, code), write),
        call_ensures(StateDb::settle_bytecode::<E>, (reply,), result),
    ensures
        ({
            &&& write matches WriteOp::Put { column, key, value }
            &&& column is Bytecodes
            &&& key@ == code_hash.0@
            &&& value@ == code@
        }),
        reply is Ok ==> result == Ok::<(), DbError<E>>(()),
        reply matches Err(error) ==> result == Err::<(), DbError<E>>(DbError::RocksDb(error)),
{
}

/// Storing a code under one code hash leaves what is read under every other one
/// as it was, and is read back under its own.
pub proof fn law_bytecodes_are_kept_apart(
    store: Map<Place, Seq<u8>>,
    stored: B256,
    code: &[u8],
    write: WriteOp,
    asked: B256,
    request: ReadRequest,
)
    requires
        call_ensures(StateDb::put_bytecode, (&stored, code), write),
        call_ensures(StateDb::bytecode_request, (&asked,), request),
    ensures
        asked.0@ == stored.0@ ==> lookup(written(store, write@), request@) == Some(code@),
        asked.0@ != stored.0@ ==> lookup(written(store, write@), request@) == lookup(
            store,
            request@,
        ),
{
}

/// After any codes have been stored in an empty store, the code stored last
/// under a code hash is read there, and `None` under a code hash where none was
/// stored.
pub proof fn law_last_stored_bytecode_is_read<E>(
    hashes: Seq<B256>,
    codes: Seq<&[u8]>,
    writes: Seq<WriteOp>,
    asked: B256,
    request: ReadRequest,
    reply: Result<Option<Vec<u8>>, E>,
    answer: Result<Option<Vec<u8>>, DbError<E>>,
    at: int,
)
    requires
        codes.len() == hashes.len(),
        writes.len() == hashes.len(),
        forall|i: int|
            0 <= i < hashes.len() ==> call_ensures(
                StateDb::put_bytecode,
                (&hashes[i], codes[i]),
                #[trigger] writes[i],
            ),
        call_ensures(StateDb::bytecode_request, (&asked,), request),
        crate::consistency::is_reply(
            reply,
            written_all(Map::empty(), batch_view(writes)),
            request@,
        ),
        call_ensures(StateDb::get_bytecode::<E>, (reply,), answer),
    ensures
        (forall|i: int| 0 <= i < hashes.len() ==> (#[trigger] hashes[i]).0@ != asked.0@)
            ==> answer == Ok::<_, DbError<E>>(None::<Vec<u8>>),
        ({
            &&& 0 <= at < hashes.len()
            &&& hashes[at].0@ == asked.0@
            &&& forall|i: int| at < i < hashes.len() ==> (#[trigger] hashes[i]).0@ != asked.0@
        }) ==> {
            &&& answer matches Ok(Some(code))
            &&& code@ == codes[at]@
        },
{
    let views = batch_view(writes);
    assert forall|i: int| 0 <= i < views.len() implies #[trigger] views[i] == (Write {
        place: crate::state_db::bytecode_place(hashes[i]@),
        value: Some(codes[i]@),
    }) by {
        assert(call_ensures(StateDb::put_bytecode, (&hashes[i], codes[i]), writes[i]));
    }
    if forall|i: int| 0 <= i < hashes.len() ==> (#[trigger] hashes[i]).0@ != asked.0@ {
        assert forall|i: int| 0 <= i < views.len() implies (#[trigger] views[i]).place
            != request@ by {
            assert(hashes[i].0@ != asked.0@);
        }
        law_untouched_places_keep_their_value(Map::empty(), views, request@);
    }
    if 0 <= at < hashes.len() && hashes[at].0@ == asked.0@ && (forall|i: int|
        at < i < hashes.len() ==> (#[trigger] hashes[i]).0@ != asked.0@) {
        assert(views[at].place == request@);
        assert forall|i: int| at < i < views.len() implies (#[trigger] views[i]).place
            != views[at].place by {
            assert(hashes[i].0@ != asked.0@);
        }
        law_last_write_wins(Map::empty(), views, at);
    }
}

} // verus!
