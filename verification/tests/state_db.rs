use std::collections::BTreeMap;

use lthash_statedb::store::{Column, ReadRequest, WriteOp};
use lthash_statedb::{
    AccountState, Address, Commit, DbError, StateChange, StateDb, WorldHash, B256, U256,
};

/// A key-value store in memory, with the operations of the real one.
#[derive(Default)]
struct MemStore {
    entries: BTreeMap<(&'static str, Vec<u8>), Vec<u8>>,
    refuses: bool,
}

impl MemStore {
    fn read(&self, request: &ReadRequest) -> Result<Option<Vec<u8>>, String> {
        Ok(self.entries.get(&(request.column.name(), request.key.clone())).cloned())
    }

    fn write(&mut self, batch: &[WriteOp]) -> Result<(), String> {
        if self.refuses {
            return Err("full".to_string());
        }
        for op in batch {
            match op {
                WriteOp::Put { column, key, value } => {
                    self.entries.insert((column.name(), key.clone()), value.clone());
                }
                WriteOp::Delete { column, key } => {
                    self.entries.remove(&(column.name(), key.clone()));
                }
            }
        }
        Ok(())
    }

    fn settle(&mut self, db: &mut StateDb, commit: Commit) -> Result<(), DbError<String>> {
        let reply = self.write(commit.batch());
        db.settle(commit, reply)
    }

    fn apply(
        &mut self,
        db: &mut StateDb,
        changes: &[StateChange],
    ) -> Result<(), DbError<String>> {
        let commit = db.apply(changes);
        self.settle(db, commit)
    }

    fn open(&self) -> Result<StateDb, DbError<String>> {
        StateDb::open(self.read(&StateDb::world_hash_request()))
    }

    fn account(&self, addr: &Address) -> Result<Option<AccountState>, DbError<String>> {
        StateDb::get_account(self.read(&StateDb::account_request(addr)))
    }

    fn storage(&self, addr: &Address, slot: &B256) -> Result<U256, DbError<String>> {
        StateDb::get_storage(self.read(&StateDb::storage_request(addr, slot)))
    }
}

fn test_account(nonce: u64, balance: u64) -> AccountState {
    AccountState { nonce, balance: U256::from_u64(balance), code_hash: B256::zero() }
}

#[test]
fn test_open_fresh_db() {
    let store = MemStore::default();
    let db = store.open().unwrap();
    let root = db.state_root();
    assert_ne!(root, B256::zero());
    assert_eq!(root, WorldHash::new().state_root());
}

#[test]
fn test_insert_and_read_account() {
    let mut store = MemStore::default();
    let mut db = store.open().unwrap();
    let addr = Address([0x11; 20]);

    let changes = vec![StateChange::Account { addr, old: None, new: test_account(1, 1000) }];
    store.apply(&mut db, &changes).unwrap();

    let acc = store.account(&addr).unwrap().unwrap();
    assert_eq!(acc.nonce, 1);
    assert_eq!(acc.balance, U256::from_u64(1000));
}

#[test]
fn test_world_hash_persists_across_reopen() {
    let mut store = MemStore::default();
    let addr = Address([0xaa; 20]);

    let root1 = {
        let mut db = store.open().unwrap();
        store.apply(&mut db, &[StateChange::Account {
            addr,
            old: None,
            new: test_account(5, 9999),
        }]).unwrap();
        db.state_root()
    };

    let db2 = store.open().unwrap();
    assert_eq!(db2.state_root(), root1);
}

#[test]
fn test_storage_insert_read_delete() {
    let mut store = MemStore::default();
    let mut db = store.open().unwrap();
    let addr = Address([0xbb; 20]);
    let slot = B256([1u8; 32]);

    store.apply(&mut db, &[StateChange::Storage {
        addr,
        slot,
        old_value: U256::zero(),
        new_value: U256::from_u64(42),
    }]).unwrap();
    assert_eq!(store.storage(&addr, &slot).unwrap(), U256::from_u64(42));

    store.apply(&mut db, &[StateChange::Storage {
        addr,
        slot,
        old_value: U256::from_u64(42),
        new_value: U256::zero(),
    }]).unwrap();
    assert_eq!(store.storage(&addr, &slot).unwrap(), U256::zero());
}

#[test]
fn column_names() {
    assert_eq!(Column::Accounts.name(), "accounts");
    assert_eq!(Column::Storages.name(), "storages");
    assert_eq!(Column::Bytecodes.name(), "bytecodes");
    assert_eq!(Column::Meta.name(), "meta");
}

#[test]
fn batch_layout() {
    let db = MemStore::default().open().unwrap();
    let addr = Address([7; 20]);
    let slot = B256([8; 32]);
    let commit = db.apply(&[
        StateChange::Account { addr, old: None, new: test_account(3, 4) },
        StateChange::DeleteAccount { addr, old: test_account(3, 4) },
        StateChange::Storage {
            addr,
            slot,
            old_value: U256::zero(),
            new_value: U256::from_u64(0x0102),
        },
        StateChange::Storage {
            addr,
            slot,
            old_value: U256::from_u64(0x0102),
            new_value: U256::zero(),
        },
    ]);
    let mut account = vec![0u8; 72];
    account[0] = 3;
    account[8] = 4;
    let mut value = vec![0u8; 32];
    value[30] = 1;
    value[31] = 2;
    let mut slot_key = vec![7u8; 20];
    slot_key.extend_from_slice(&[8u8; 32]);
    assert_eq!(
        commit.batch(),
        vec![
            WriteOp::Put { column: Column::Accounts, key: vec![7; 20], value: account },
            WriteOp::Delete { column: Column::Accounts, key: vec![7; 20] },
            WriteOp::Put { column: Column::Storages, key: slot_key.clone(), value },
            WriteOp::Delete { column: Column::Storages, key: slot_key },
            WriteOp::Put {
                column: Column::Meta,
                key: b"world_hash".to_vec(),
                value: vec![0; 2048],
            },
        ]
    );
}

#[test]
fn flush_keeps_the_world_hash() {
    let mut bytes = [0u8; 2048];
    for i in 0..2048 {
        bytes[i] = (i * 5) as u8;
    }
    assert_eq!(
        StateDb::flush_changes(&WorldHash::from_bytes(&bytes), &[]),
        vec![WriteOp::Put {
            column: Column::Meta,
            key: b"world_hash".to_vec(),
            value: bytes.to_vec(),
        }]
    );
}

#[test]
fn parallel_commit_equals_sequential_commit() {
    let changes: Vec<StateChange> = (0..40u8)
        .map(|i| StateChange::Account {
            addr: Address([i; 20]),
            old: None,
            new: test_account(i as u64, 1000 * i as u64),
        })
        .collect();
    let (mut store1, mut store2) = (MemStore::default(), MemStore::default());
    let mut db1 = store1.open().unwrap();
    let mut db2 = store2.open().unwrap();
    let (commit1, commit2) = (db1.apply(&changes), db2.apply_parallel(&changes));
    assert_eq!(commit1.batch(), commit2.batch());
    store1.settle(&mut db1, commit1).unwrap();
    store2.settle(&mut db2, commit2).unwrap();
    assert_ne!(db1.state_root(), WorldHash::new().state_root());
    assert_eq!(db1.state_root(), db2.state_root());
}

#[test]
fn delete_account_reads_back_as_absent() {
    let mut store = MemStore::default();
    let mut db = store.open().unwrap();
    let fresh_root = db.state_root();
    let addr = Address([6; 20]);
    store.apply(&mut db, &[StateChange::Account { addr, old: None, new: test_account(1, 2) }]).unwrap();
    store.apply(&mut db, &[StateChange::DeleteAccount { addr, old: test_account(1, 2) }]).unwrap();
    assert_eq!(store.account(&addr), Ok(None));
    assert_eq!(db.state_root(), fresh_root);
}

#[test]
fn last_change_of_a_batch_wins() {
    let mut store = MemStore::default();
    let mut db = store.open().unwrap();
    let addr = Address([6; 20]);
    store.apply(&mut db, &[
        StateChange::Account { addr, old: None, new: test_account(1, 2) },
        StateChange::Account { addr, old: Some(test_account(1, 2)), new: test_account(2, 3) },
    ]).unwrap();
    assert_eq!(store.account(&addr), Ok(Some(test_account(2, 3))));
}

#[test]
fn corrupt_world_hash_is_refused() {
    let reply: Result<Option<Vec<u8>>, String> = Ok(Some(vec![0; 2047]));
    let error = StateDb::open(reply).err();
    assert_eq!(error, Some(DbError::CorruptWorldHash { expected: 2048, got: 2047 }));
}

#[test]
fn store_errors_are_passed_on() {
    let fail = || -> Result<Option<Vec<u8>>, String> { Err("disk".to_string()) };
    let expected = || DbError::RocksDb("disk".to_string());
    assert_eq!(StateDb::open(fail()).err(), Some(expected()));
    assert_eq!(StateDb::get_account(fail()), Err(expected()));
    assert_eq!(StateDb::get_storage(fail()), Err(expected()));
    assert_eq!(StateDb::get_bytecode(fail()), Err(expected()));
}

#[test]
fn corrupt_values_are_refused() {
    let short = |n: usize| -> Result<Option<Vec<u8>>, String> { Ok(Some(vec![1; n])) };
    assert_eq!(StateDb::get_account(short(71)), Err(DbError::CorruptAccount(71)));
    assert_eq!(StateDb::get_storage(short(31)), Err(DbError::CorruptStorage(31)));
    assert_eq!(StateDb::get_storage(short(33)), Err(DbError::CorruptStorage(33)));
}

#[test]
fn batch_reads_agree_with_single_reads() {
    let mut store = MemStore::default();
    let mut db = store.open().unwrap();
    let (a1, a2) = (Address([1; 20]), Address([2; 20]));
    let (s1, s2) = (B256([3; 32]), B256([4; 32]));
    store.apply(&mut db, &[
        StateChange::Account { addr: a2, old: None, new: test_account(8, 9) },
        StateChange::Storage {
            addr: a1,
            slot: s2,
            old_value: U256::zero(),
            new_value: U256::from_u64(77),
        },
    ]).unwrap();
    let replies: Vec<_> =
        StateDb::account_requests(&[a1, a2]).iter().map(|r| store.read(r)).collect();
    assert_eq!(
        StateDb::multi_get_accounts(replies),
        Ok(vec![None, Some(test_account(8, 9))])
    );
    let replies: Vec<_> =
        StateDb::storage_requests(&[(a1, s1), (a1, s2)]).iter().map(|r| store.read(r)).collect();
    assert_eq!(
        StateDb::multi_get_storage(replies),
        Ok(vec![U256::zero(), U256::from_u64(77)])
    );
}

#[test]
fn batch_reads_give_the_first_error() {
    let replies = || -> Vec<Result<Option<Vec<u8>>, String>> {
        vec![Ok(None), Ok(Some(vec![0; 5])), Err("disk".to_string())]
    };
    assert_eq!(StateDb::multi_get_accounts(replies()), Err(DbError::CorruptAccount(5)));
    assert_eq!(StateDb::multi_get_storage(replies()), Err(DbError::CorruptStorage(5)));
    let mut reversed = replies();
    reversed.reverse();
    assert_eq!(
        StateDb::multi_get_accounts(reversed),
        Err(DbError::RocksDb("disk".to_string()))
    );
    let none: Vec<Result<Option<Vec<u8>>, String>> = Vec::new();
    assert_eq!(StateDb::multi_get_accounts(none), Ok(Vec::new()));
}

#[test]
fn bytecode_reads_back() {
    let mut store = MemStore::default();
    let mut db = store.open().unwrap();
    let code_hash = B256([0xcc; 32]);
    let request = StateDb::bytecode_request(&code_hash);
    assert_eq!(StateDb::get_bytecode(store.read(&request)), Ok(None));
    let reply = store.write(&[StateDb::put_bytecode(&code_hash, &[0x60, 0x00])]);
    assert_eq!(StateDb::settle_bytecode(reply), Ok(()));
    store.apply(&mut db, &[]).unwrap();
    assert_eq!(StateDb::get_bytecode(store.read(&request)), Ok(Some(vec![0x60, 0x00])));
}

#[test]
fn untouched_places_keep_their_value() {
    let mut store = MemStore::default();
    let mut db = store.open().unwrap();
    let (a1, a2) = (Address([1; 20]), Address([2; 20]));
    let (s1, s2) = (B256([3; 32]), B256([4; 32]));
    let set = |addr: Address, slot: B256, value: u64| StateChange::Storage {
        addr,
        slot,
        old_value: U256::zero(),
        new_value: U256::from_u64(value),
    };
    store.apply(&mut db, &[
        StateChange::Account { addr: a1, old: None, new: test_account(1, 2) },
        set(a1, s1, 5),
    ]).unwrap();
    store.apply(&mut db, &[
        StateChange::Account { addr: a2, old: None, new: test_account(3, 4) },
        set(a2, s1, 6),
        set(a1, s2, 7),
    ]).unwrap();
    assert_eq!(store.account(&a1), Ok(Some(test_account(1, 2))));
    assert_eq!(store.storage(&a1, &s1), Ok(U256::from_u64(5)));
    assert_eq!(store.storage(&a2, &s2), Ok(U256::zero()));
}

#[test]
fn prepared_commit_moves_nothing() {
    let db = MemStore::default().open().unwrap();
    let root = db.state_root();
    let changes =
        [StateChange::Account { addr: Address([1; 20]), old: None, new: test_account(1, 2) }];
    let commit = db.apply(&changes);
    let parallel = db.apply_parallel(&changes);
    assert_eq!(commit.batch().len(), 2);
    assert_eq!(parallel.batch().len(), 2);
    assert_eq!(db.state_root(), root);
}

#[test]
fn refused_batch_changes_nothing() {
    let mut store = MemStore::default();
    let mut db = store.open().unwrap();
    let (a1, a2) = (Address([1; 20]), Address([2; 20]));
    let first = StateChange::Account { addr: a1, old: None, new: test_account(1, 2) };
    store.apply(&mut db, &[first]).unwrap();
    let root = db.state_root();
    let entries = store.entries.clone();

    store.refuses = true;
    let refused = [
        StateChange::Account { addr: a1, old: Some(test_account(1, 2)), new: test_account(9, 9) },
        StateChange::Account { addr: a2, old: None, new: test_account(3, 4) },
    ];
    let expected = Err(DbError::RocksDb("full".to_string()));
    assert_eq!(store.apply(&mut db, &refused), expected);
    let commit = db.apply_parallel(&refused);
    assert_eq!(store.settle(&mut db, commit), expected);
    assert_eq!(db.state_root(), root);
    assert_eq!(store.entries, entries);
    assert_eq!(store.account(&a1), Ok(Some(test_account(1, 2))));
    assert_eq!(store.account(&a2), Ok(None));
    assert_eq!(store.open().unwrap().state_root(), root);
}

#[test]
fn batch_after_a_refused_one_gives_its_own_root() {
    let change = |byte: u8| StateChange::Account {
        addr: Address([byte; 20]),
        old: None,
        new: test_account(byte as u64, 10),
    };
    let mut expected_store = MemStore::default();
    let mut expected = expected_store.open().unwrap();
    expected_store.apply(&mut expected, &[change(2)]).unwrap();

    let mut store = MemStore { entries: BTreeMap::new(), refuses: true };
    let mut db = store.open().unwrap();
    assert!(store.apply(&mut db, &[change(1)]).is_err());
    let commit = db.apply_parallel(&[change(1)]);
    assert!(store.settle(&mut db, commit).is_err());
    store.refuses = false;
    store.apply(&mut db, &[change(2)]).unwrap();
    assert_eq!(db.state_root(), expected.state_root());
    assert_eq!(store.entries, expected_store.entries);
    assert_eq!(store.open().unwrap().state_root(), expected.state_root());
}

#[test]
fn refused_bytecode_is_reported() {
    let mut store = MemStore { entries: BTreeMap::new(), refuses: true };
    let code_hash = B256([0xcc; 32]);
    let reply = store.write(&[StateDb::put_bytecode(&code_hash, &[0x60, 0x00])]);
    assert_eq!(
        StateDb::settle_bytecode(reply),
        Err(DbError::RocksDb("full".to_string()))
    );
    let request = StateDb::bytecode_request(&code_hash);
    assert_eq!(StateDb::get_bytecode(store.read(&request)), Ok(None));
}

#[test]
fn bytecode_leaves_the_state_alone() {
    let mut store = MemStore::default();
    let mut db = store.open().unwrap();
    let addr = Address([5; 20]);
    let change = StateChange::Account { addr, old: None, new: test_account(1, 2) };
    store.apply(&mut db, &[change]).unwrap();
    store.write(&[StateDb::put_bytecode(&B256([0xcc; 32]), &[0x60])]).unwrap();
    assert_eq!(store.account(&addr), Ok(Some(test_account(1, 2))));
    assert_eq!(store.open().unwrap().state_root(), db.state_root());
}

#[test]
fn equal_contents_give_equal_roots() {
    let (a1, a2) = (Address([1; 20]), Address([2; 20]));
    let slot = B256([3; 32]);
    let account = |addr: Address, old: Option<AccountState>, new: AccountState| {
        StateChange::Account { addr, old, new }
    };
    let set = |old: u64, new: u64| StateChange::Storage {
        addr: a1,
        slot,
        old_value: U256::from_u64(old),
        new_value: U256::from_u64(new),
    };

    let mut store1 = MemStore::default();
    let mut db1 = store1.open().unwrap();
    store1.apply(&mut db1, &[account(a1, None, test_account(1, 1)), set(0, 4)]).unwrap();
    store1
        .apply(
            &mut db1,
            &[
                account(a1, Some(test_account(1, 1)), test_account(2, 2)),
                account(a2, None, test_account(7, 7)),
                set(4, 5),
            ],
        )
        .unwrap();
    store1
        .apply(&mut db1, &[StateChange::DeleteAccount { addr: a2, old: test_account(7, 7) }])
        .unwrap();

    let mut store2 = MemStore::default();
    let mut db2 = store2.open().unwrap();
    store2.apply(&mut db2, &[set(0, 5), account(a1, None, test_account(2, 2))]).unwrap();

    assert_eq!(store1.entries, store2.entries);
    assert_eq!(db1.state_root(), db2.state_root());
}

#[test]
fn reads_do_not_depend_on_the_old_values() {
    let mut store = MemStore::default();
    let mut db = store.open().unwrap();
    let (a1, a2) = (Address([1; 20]), Address([2; 20]));
    let slot = B256([3; 32]);
    let changes = [
        StateChange::Account { addr: a1, old: Some(test_account(9, 9)), new: test_account(1, 2) },
        StateChange::DeleteAccount { addr: a2, old: test_account(8, 8) },
        StateChange::Storage {
            addr: a1,
            slot,
            old_value: U256::from_u64(7),
            new_value: U256::from_u64(5),
        },
    ];
    store.apply(&mut db, &changes).unwrap();
    assert_eq!(store.account(&a1), Ok(Some(test_account(1, 2))));
    assert_eq!(store.account(&a2), Ok(None));
    assert_eq!(store.storage(&a1, &slot), Ok(U256::from_u64(5)));

    store.refuses = true;
    let wipe = [StateChange::DeleteAccount { addr: a1, old: test_account(6, 6) }];
    assert!(store.apply(&mut db, &wipe).is_err());
    assert_eq!(store.account(&a1), Ok(Some(test_account(1, 2))));
}
