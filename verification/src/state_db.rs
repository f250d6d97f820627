//! The state database: a world hash in memory, and the flat key-value store
//! beside it.
//!
//! The store itself is not part of this crate. A read is a [`ReadRequest`] and
//! a function on the reply of the store. A [`Commit`] holds a list of
//! [`WriteOp`]s that the store must carry out as one atomic batch, and
//! [`StateDb::settle`] takes the reply to it.

use vstd::prelude::*;

use crate::account::{
    account_bytes, account_of_bytes, account_view, decode_account, encode_account,
    encode_storage_key, storage_key, AccountState, AccountView, ACCOUNT_BYTES,
};
use crate::bytes::{be_bytes, be_value, copy_into};
use crate::change::{apply_parallel, apply_sequential, total_delta, StateChange};
use crate::error::DbError;
use crate::lattice::{
    bytes_of_lanes, lanes_of_bytes, lattice_sum, lattice_zero, WORLD_HASH_BYTES, WORLD_HASH_LEN,
};
use crate::primitives::{Address, B256, U256};
use crate::store::{batch_view, Column, Place, ReadRequest, Write, WriteOp};
use crate::world::{root_of_lanes, WorldHash};

verus! {

/// The key of the world hash: the bytes of `world_hash`.
pub const META_WORLD_HASH: [u8; 10] = [
    0x77, 0x6f, 0x72, 0x6c, 0x64, 0x5f, 0x68, 0x61, 0x73, 0x68,
];

/// Length of a stored slot value.
pub const STORAGE_VALUE_BYTES: usize = 32;

/// Where the world hash is kept.
pub open spec fn world_hash_place() -> Place {
    (Column::Meta, META_WORLD_HASH@)
}

/// Where an account is kept.
pub open spec fn account_place(addr: Seq<u8>) -> Place {
    (Column::Accounts, addr)
}

/// Where a storage slot is kept.
pub open spec fn storage_place(addr: Seq<u8>, slot: Seq<u8>) -> Place {
    (Column::Storages, storage_key(addr, slot))
}

/// Where a bytecode is kept.
pub open spec fn bytecode_place(code_hash: Seq<u8>) -> Place {
    (Column::Bytecodes, code_hash)
}

/// The write that a change makes.
pub open spec fn change_write(change: StateChange) -> Write {
    match change {
        StateChange::Account { addr, old, new } => Write {
            place: account_place(addr@),
            value: Some(account_bytes(new@)),
        },
        StateChange::DeleteAccount { addr, old } => Write {
            place: account_place(addr@),
            value: None,
        },
        StateChange::Storage { addr, slot, old_value, new_value } => Write {
            place: storage_place(addr@, slot@),
            value: if new_value@ == 0 {
                None
            } else {
                Some(be_bytes(new_value@, 32))
            },
        },
    }
}

/// The writes that the changes make, in order.
pub open spec fn change_writes(changes: Seq<StateChange>) -> Seq<Write> {
    Seq::new(changes.len(), |i: int| change_write(changes[i]))
}

/// The write that keeps a world hash.
pub open spec fn world_hash_write(lanes: Seq<u16>) -> Write {
    Write { place: world_hash_place(), value: Some(bytes_of_lanes(lanes)) }
}

/// The batch that commits the changes together with the world hash after them.
pub open spec fn commit_writes(changes: Seq<StateChange>, lanes: Seq<u16>) -> Seq<Write> {
    change_writes(changes).push(world_hash_write(lanes))
}

/// What the reply of the store to a read says about an account.
pub open spec fn account_answer<E>(reply: Result<Option<Vec<u8>>, E>) -> Result<
    Option<AccountView>,
    DbError<E>,
> {
    match reply {
        Err(error) => Err(DbError::RocksDb(error)),
        Ok(None) => Ok(None),
        Ok(Some(bytes)) => if bytes@.len() == ACCOUNT_BYTES {
            Ok(Some(account_of_bytes(bytes@)))
        } else {
            Err(DbError::CorruptAccount(bytes@.len() as usize))
        },
    }
}

/// What the reply of the store to a read says about a storage slot.
pub open spec fn storage_answer<E>(reply: Result<Option<Vec<u8>>, E>) -> Result<nat, DbError<E>> {
    match reply {
        Err(error) => Err(DbError::RocksDb(error)),
        Ok(None) => Ok(0),
        Ok(Some(bytes)) => if bytes@.len() == STORAGE_VALUE_BYTES {
            Ok(be_value(bytes@))
        } else {
            Err(DbError::CorruptStorage(bytes@.len() as usize))
        },
    }
}

/// What the reply of the store to a read says about the world hash.
pub open spec fn world_hash_answer<E>(reply: Result<Option<Vec<u8>>, E>) -> Result<
    Seq<u16>,
    DbError<E>,
> {
    match reply {
        Err(error) => Err(DbError::RocksDb(error)),
        Ok(None) => Ok(lattice_zero()),
        Ok(Some(bytes)) => if bytes@.len() == WORLD_HASH_BYTES {
            Ok(lanes_of_bytes(bytes@))
        } else {
            Err(
                DbError::CorruptWorldHash {
                    expected: WORLD_HASH_BYTES,
                    got: bytes@.len() as usize,
                },
            )
        },
    }
}

/// What the reply of the store to a write or a batch says.
pub open spec fn write_answer<E>(reply: Result<(), E>) -> Result<(), DbError<E>> {
    match reply {
        Ok(_) => Ok(()),
        Err(error) => Err(DbError::RocksDb(error)),
    }
}

/// The world hash after the reply of the store to a commit: that of the commit
/// if the store has carried it out, and the current one if not.
pub open spec fn settled_lanes<E>(
    current: Seq<u16>,
    next: Seq<u16>,
    reply: Result<(), E>,
) -> Seq<u16> {
    match reply {
        Ok(_) => next,
        Err(_) => current,
    }
}

/// All values of a sequence of answers, or its first error.
pub open spec fn collected<T, F>(answers: Seq<Result<T, F>>) -> Result<Seq<T>, F>
    decreases answers.len(),
{
    if answers.len() == 0 {
        Ok(Seq::empty())
    } else {
        match collected(answers.drop_last()) {
            Err(error) => Err(error),
            Ok(values) => match answers.last() {
                Err(error) => Err(error),
                Ok(value) => Ok(values.push(value)),
            },
        }
    }
}

/// An error in a prefix of the answers is the error of the whole.
proof fn lemma_error_stays<T, F>(answers: Seq<Result<T, F>>, n: int)
    requires
        0 <= n <= answers.len(),
        collected(answers.take(n)) is Err,
    ensures
        collected(answers) == collected(answers.take(n)),
    decreases answers.len() - n,
{
    if n < answers.len() {
        assert(answers.take(n + 1).drop_last() =~= answers.take(n));
        lemma_error_stays(answers, n + 1);
    } else {
        assert(answers.take(n) =~= answers);
    }
}

/// A batch read succeeds if and only if all its answers are values, and then
/// gives them in order. Otherwise it gives the first error.
pub proof fn law_batch_read_agrees_with_single_reads<T, F>(answers: Seq<Result<T, F>>)
    ensures
        match collected(answers) {
            Ok(values) => {
                &&& values.len() == answers.len()
                &&& forall|i: int|
                    0 <= i < answers.len() ==> #[trigger] answers[i] == Ok::<T, F>(values[i])
            },
            Err(error) => exists|i: int|
                {
                    &&& 0 <= i < answers.len()
                    &&& #[trigger] answers[i] == Err::<T, F>(error)
                    &&& forall|j: int| 0 <= j < i ==> (#[trigger] answers[j]) is Ok
                },
        },
    decreases answers.len(),
{
    if answers.len() > 0 {
        let before = answers.drop_last();
        law_batch_read_agrees_with_single_reads(before);
        assert forall|i: int| 0 <= i < before.len() implies before[i] == #[trigger] answers[i] by {
        }
        match collected(before) {
            Ok(values) => {
                assert forall|i: int| 0 <= i < before.len() implies #[trigger] answers[i] == Ok::<
                    T,
                    F,
                >(values[i]) by {
                    assert(before[i] == answers[i]);
                }
                assert(answers[answers.len() - 1] == answers.last());
            },
            Err(error) => {
                let i = choose|i: int|
                    {
                        &&& 0 <= i < before.len()
                        &&& #[trigger] before[i] == Err::<T, F>(error)
                        &&& forall|j: int| 0 <= j < i ==> (#[trigger] before[j]) is Ok
                    };
                assert(answers[i] == Err::<T, F>(error));
                assert forall|j: int| 0 <= j < i implies (#[trigger] answers[j]) is Ok by {
                    assert(before[j] is Ok);
                }
            },
        }
    }
}

/// The answers to a batch read of accounts.
pub open spec fn account_answers<E>(replies: Seq<Result<Option<Vec<u8>>, E>>) -> Seq<
    Result<Option<AccountView>, DbError<E>>,
> {
    Seq::new(replies.len(), |i: int| account_answer(replies[i]))
}

/// The answers to a batch read of storage slots.
pub open spec fn storage_answers<E>(replies: Seq<Result<Option<Vec<u8>>, E>>) -> Seq<
    Result<nat, DbError<E>>,
> {
    Seq::new(replies.len(), |i: int| storage_answer(replies[i]))
}

/// The values of the accounts of a list.
pub open spec fn account_views(accounts: Seq<Option<AccountState>>) -> Seq<Option<AccountView>> {
    Seq::new(accounts.len(), |i: int| account_view(accounts[i]))
}

/// The values of the numbers of a list.
pub open spec fn number_views(numbers: Seq<U256>) -> Seq<nat> {
    Seq::new(numbers.len(), |i: int| numbers[i]@)
}

/// A state database.
pub struct StateDb {
    world_hash: WorldHash,
}

impl View for StateDb {
    type V = Seq<u16>;

    /// The lanes of the world hash.
    closed spec fn view(&self) -> Seq<u16> {
        self.world_hash@
    }
}

/// A commit that waits for the reply of the store: the world hash after its
/// changes, and the batch that the store must carry out as a whole.
pub struct Commit {
    next: WorldHash,
    batch: Vec<WriteOp>,
}

impl Commit {
    /// The lanes of the world hash after the changes.
    pub closed spec fn lanes(self) -> Seq<u16> {
        self.next@
    }

    /// The writes of the batch, in order.
    pub closed spec fn writes(self) -> Seq<Write> {
        batch_view(self.batch@)
    }

    /// The batch for the store.
    pub fn batch(&self) -> (batch: &[WriteOp])
        ensures
            batch_view(batch@) == self.writes(),
    {
        self.batch.as_slice()
    }
}

/// The world hash of a database has 1024 lanes.
pub broadcast proof fn law_state_db_lane_count(db: StateDb)
    ensures
        #[trigger] db@.len() == WORLD_HASH_LEN,
{
    crate::world::lemma_world_hash_len(db.world_hash);
}

impl StateDb {
    /// The read that opening a database needs.
    pub fn world_hash_request() -> (request: ReadRequest)
        ensures
            request@ == world_hash_place(),
    {
        let name = META_WORLD_HASH;
        ReadRequest { column: Column::Meta, key: to_vec(&name) }
    }

    /// Opens a database, given the reply to the read of the world hash. A
    /// store without a world hash is a fresh one.
    pub fn open<E>(reply: Result<Option<Vec<u8>>, E>) -> (db: Result<Self, DbError<E>>)
        ensures
            match (db, world_hash_answer(reply)) {
                (Ok(db), Ok(lanes)) => db@ == lanes,
                (Err(error), Err(expected)) => error == expected,
                _ => false,
            },
    {
        match reply {
            Err(error) => Err(DbError::RocksDb(error)),
            Ok(None) => Ok(StateDb { world_hash: WorldHash::new() }),
            Ok(Some(bytes)) => {
                if bytes.len() != WORLD_HASH_BYTES {
                    return Err(
                        DbError::CorruptWorldHash {
                            expected: WORLD_HASH_BYTES,
                            got: bytes.len(),
                        },
                    );
                }
                let mut arr = [0u8; WORLD_HASH_BYTES];
                copy_into(&mut arr, 0, bytes.as_slice());
                assert(arr@ =~= bytes@);
                Ok(StateDb { world_hash: WorldHash::from_bytes(&arr) })
            },
        }
    }

    /// The current 32-byte state root.
    pub fn state_root(&self) -> (root: B256)
        ensures
            root@ == root_of_lanes(self@),
    {
        self.world_hash.state_root()
    }

    /// Prepares the commit of the changes: the world hash after them, and the
    /// batch that keeps the changes together with that world hash.
    ///
    /// The world hash of the database does not move before
    /// [`StateDb::settle`] learns that the store has carried out the batch.
    pub fn apply(&self, changes: &[StateChange]) -> (commit: Commit)
        ensures
            commit.lanes() == lattice_sum(self@, total_delta(changes@)),
            commit.writes() == commit_writes(changes@, commit.lanes()),
    {
        let mut next = self.world_hash.clone();
        apply_sequential(&mut next, changes);
        let batch = Self::flush_changes(&next, changes);
        Commit { next, batch }
    }

    /// As [`StateDb::apply`], with the hashes computed in parallel.
    pub fn apply_parallel(&self, changes: &[StateChange]) -> (commit: Commit)
        ensures
            commit.lanes() == lattice_sum(self@, total_delta(changes@)),
            commit.writes() == commit_writes(changes@, commit.lanes()),
    {
        let mut next = self.world_hash.clone();
        apply_parallel(&mut next, changes);
        let batch = Self::flush_changes(&next, changes);
        Commit { next, batch }
    }

    /// Ends a commit with the reply of the store to its batch. The world hash
    /// moves if and only if the store has carried out the batch.
    ///
    /// The commit must be the one prepared from the database as it now stands:
    /// settle each commit before the next one is prepared. A commit prepared
    /// from an earlier world hash would take back what was settled since, while
    /// the writes of those commits stay in the store.
    pub fn settle<E>(&mut self, commit: Commit, reply: Result<(), E>) -> (result: Result<
        (),
        DbError<E>,
    >)
        ensures
            result == write_answer(reply),
            final(self)@ == settled_lanes(old(self)@, commit.lanes(), reply),
    {
        match reply {
            Ok(()) => {
                self.world_hash = commit.next;
                Ok(())
            },
            Err(error) => Err(DbError::RocksDb(error)),
        }
    }

    /// The batch that keeps the changes together with the world hash `next`.
    pub fn flush_changes(next: &WorldHash, changes: &[StateChange]) -> (batch: Vec<WriteOp>)
        ensures
            batch_view(batch@) == commit_writes(changes@, next@),
    {
        let mut batch: Vec<WriteOp> = Vec::new();
        for i in 0..changes.len()
            invariant
                batch@.len() == i,
                forall|j: int| 0 <= j < i ==> (#[trigger] batch@[j])@ == change_write(changes@[j]),
        {
            match &changes[i] {
                StateChange::Account { addr, old: _, new } => {
                    let value = encode_account(new);
                    batch.push(
                        WriteOp::Put {
                            column: Column::Accounts,
                            key: to_vec(&addr.0),
                            value: to_vec(&value),
                        },
                    );
                },
                StateChange::DeleteAccount { addr, old: _ } => {
                    batch.push(WriteOp::Delete { column: Column::Accounts, key: to_vec(&addr.0) });
                },
                StateChange::Storage { addr, slot, old_value: _, new_value } => {
                    let key = encode_storage_key(addr, slot);
                    if new_value.is_zero() {
                        batch.push(WriteOp::Delete { column: Column::Storages, key: to_vec(&key) });
                    } else {
                        let value = new_value.to_be_bytes();
                        batch.push(
                            WriteOp::Put {
                                column: Column::Storages,
                                key: to_vec(&key),
                                value: to_vec(&value),
                            },
                        );
                    }
                },
            }
        }
        let name = META_WORLD_HASH;
        let bytes = next.to_bytes();
        batch.push(
            WriteOp::Put { column: Column::Meta, key: to_vec(&name), value: to_vec(&bytes) },
        );
        assert(batch_view(batch@) =~= commit_writes(changes@, next@));
        batch
    }

    /// The reads that a batch read of accounts needs, in the order of the
    /// addresses.
    pub fn account_requests(addrs: &[Address]) -> (requests: Vec<ReadRequest>)
        ensures
            requests@.len() == addrs@.len(),
            forall|i: int|
                0 <= i < addrs@.len() ==> (#[trigger] requests@[i])@ == account_place(addrs@[i]@),
    {
        let mut requests: Vec<ReadRequest> = Vec::new();
        for i in 0..addrs.len()
            invariant
                requests@.len() == i,
                forall|j: int|
                    0 <= j < i ==> (#[trigger] requests@[j])@ == account_place(addrs@[j]@),
        {
            requests.push(Self::account_request(&addrs[i]));
        }
        requests
    }

    /// The accounts that the replies to a batch read hold, or the first error.
    pub fn multi_get_accounts<E>(replies: Vec<Result<Option<Vec<u8>>, E>>) -> (accounts: Result<
        Vec<Option<AccountState>>,
        DbError<E>,
    >)
        ensures
            match (accounts, collected(account_answers(replies@))) {
                (Ok(accounts), Ok(values)) => account_views(accounts@) == values,
                (Err(error), Err(expected)) => error == expected,
                _ => false,
            },
    {
        let ghost answers = account_answers(replies@);
        let mut values: Vec<Option<AccountState>> = Vec::new();
        assert(account_views(values@) =~= Seq::empty());
        for reply in iter: replies.into_iter()
            invariant
                answers == account_answers(replies@),
                iter.seq() == replies@,
                collected(answers.take(iter.index() as int)) == Ok::<_, DbError<E>>(
                    account_views(values@),
                ),
        {
            let ghost i = iter.index() as int;
            let ghost before = values@;
            proof {
                assert(answers.take(i + 1).drop_last() =~= answers.take(i));
                assert(answers.take(i + 1).last() == answers[i]);
            }
            match Self::get_account(reply) {
                Ok(value) => {
                    values.push(value);
                    assert(account_views(values@) =~= account_views(before).push(answers[i]->Ok_0));
                },
                Err(error) => {
                    proof {
                        lemma_error_stays(answers, i + 1);
                    }
                    return Err(error);
                },
            }
        }
        assert(answers.take(answers.len() as int) =~= answers);
        Ok(values)
    }

    /// The reads that a batch read of storage slots needs, in the order of the
    /// keys.
    pub fn storage_requests(keys: &[(Address, B256)]) -> (requests: Vec<ReadRequest>)
        ensures
            requests@.len() == keys@.len(),
            forall|i: int|
                0 <= i < keys@.len() ==> (#[trigger] requests@[i])@ == storage_place(
                    keys@[i].0@,
                    keys@[i].1@,
                ),
    {
        let mut requests: Vec<ReadRequest> = Vec::new();
        for i in 0..keys.len()
            invariant
                requests@.len() == i,
                forall|j: int|
                    0 <= j < i ==> (#[trigger] requests@[j])@ == storage_place(
                        keys@[j].0@,
                        keys@[j].1@,
                    ),
        {
            requests.push(Self::storage_request(&keys[i].0, &keys[i].1));
        }
        requests
    }

    /// The slot values that the replies to a batch read hold, or the first
    /// error.
    pub fn multi_get_storage<E>(replies: Vec<Result<Option<Vec<u8>>, E>>) -> (values: Result<
        Vec<U256>,
        DbError<E>,
    >)
        ensures
            match (values, collected(storage_answers(replies@))) {
                (Ok(values), Ok(expected)) => number_views(values@) == expected,
                (Err(error), Err(expected)) => error == expected,
                _ => false,
            },
    {
        let ghost answers = storage_answers(replies@);
        let mut values: Vec<U256> = Vec::new();
        assert(number_views(values@) =~= Seq::empty());
        for reply in iter: replies.into_iter()
            invariant
                answers == storage_answers(replies@),
                iter.seq() == replies@,
                collected(answers.take(iter.index() as int)) == Ok::<_, DbError<E>>(
                    number_views(values@),
                ),
        {
            let ghost i = iter.index() as int;
            let ghost before = values@;
            proof {
                assert(answers.take(i + 1).drop_last() =~= answers.take(i));
                assert(answers.take(i + 1).last() == answers[i]);
            }
            match Self::get_storage(reply) {
                Ok(value) => {
                    values.push(value);
                    assert(number_views(values@) =~= number_views(before).push(answers[i]->Ok_0));
                },
                Err(error) => {
                    proof {
                        lemma_error_stays(answers, i + 1);
                    }
                    return Err(error);
                },
            }
        }
        assert(answers.take(answers.len() as int) =~= answers);
        Ok(values)
    }

    /// The read that looking up an account needs.
    pub fn account_request(addr: &Address) -> (request: ReadRequest)
        ensures
            request@ == account_place(addr@),
    {
        ReadRequest { column: Column::Accounts, key: to_vec(&addr.0) }
    }

    /// The account that the reply to a read holds.
    pub fn get_account<E>(reply: Result<Option<Vec<u8>>, E>) -> (account: Result<
        Option<AccountState>,
        DbError<E>,
    >)
        ensures
            match (account, account_answer(reply)) {
                (Ok(account), Ok(value)) => account_view(account) == value,
                (Err(error), Err(expected)) => error == expected,
                _ => false,
            },
    {
        match reply {
            Err(error) => Err(DbError::RocksDb(error)),
            Ok(None) => Ok(None),
            Ok(Some(bytes)) => match decode_account(bytes.as_slice()) {
                Ok(account) => Ok(Some(account)),
                Err(error) => Err(error),
            },
        }
    }

    /// The read that looking up a storage slot needs.
    pub fn storage_request(addr: &Address, slot: &B256) -> (request: ReadRequest)
        ensures
            request@ == storage_place(addr@, slot@),
    {
        let key = encode_storage_key(addr, slot);
        ReadRequest { column: Column::Storages, key: to_vec(&key) }
    }

    /// The slot value that the reply to a read holds. An absent slot holds
    /// zero.
    pub fn get_storage<E>(reply: Result<Option<Vec<u8>>, E>) -> (value: Result<U256, DbError<E>>)
        ensures
            match (value, storage_answer(reply)) {
                (Ok(value), Ok(expected)) => value@ == expected,
                (Err(error), Err(expected)) => error == expected,
                _ => false,
            },
    {
        match reply {
            Err(error) => Err(DbError::RocksDb(error)),
            Ok(None) => Ok(U256::zero()),
            Ok(Some(bytes)) => {
                if bytes.len() != STORAGE_VALUE_BYTES {
                    return Err(DbError::CorruptStorage(bytes.len()));
                }
                Ok(U256::from_be_slice(bytes.as_slice()))
            },
        }
    }

    /// The write that stores a bytecode under its code hash.
    pub fn put_bytecode(code_hash: &B256, code: &[u8]) -> (write: WriteOp)
        ensures
            write@ == (Write { place: bytecode_place(code_hash@), value: Some(code@) }),
    {
        WriteOp::Put { column: Column::Bytecodes, key: to_vec(&code_hash.0), value: to_vec(code) }
    }

    /// Ends the storing of a bytecode with the reply of the store to its write.
    pub fn settle_bytecode<E>(reply: Result<(), E>) -> (result: Result<(), DbError<E>>)
        ensures
            result == write_answer(reply),
    {
        match reply {
            Ok(()) => Ok(()),
            Err(error) => Err(DbError::RocksDb(error)),
        }
    }

    /// The read that looking up a bytecode needs.
    pub fn bytecode_request(code_hash: &B256) -> (request: ReadRequest)
        ensures
            request@ == bytecode_place(code_hash@),
    {
        ReadRequest { column: Column::Bytecodes, key: to_vec(&code_hash.0) }
    }

    /// The bytecode that the reply to a read holds.
    pub fn get_bytecode<E>(reply: Result<Option<Vec<u8>>, E>) -> (code: Result<
        Option<Vec<u8>>,
        DbError<E>,
    >)
        ensures
            match reply {
                Ok(stored) => code == Ok::<_, DbError<E>>(stored),
                Err(error) => code == Err::<Option<Vec<u8>>, _>(DbError::RocksDb(error)),
            },
    {
        match reply {
            Ok(code) => Ok(code),
            Err(error) => Err(DbError::RocksDb(error)),
        }
    }
}

/// The bytes of a slice.
fn to_vec(bytes: &[u8]) -> (vec: Vec<u8>)
    ensures
        vec@ == bytes@,
{
    let mut vec: Vec<u8> = Vec::new();
    vec.extend_from_slice(bytes);
    assert(vec@ =~= bytes@);
    vec
}

} // verus!
