use lthash_statedb::change::apply_one;
use lthash_statedb::entry::build_entry_message;
use lthash_statedb::{
    apply_parallel, apply_sequential, AccountState, Address, EntryHash, StateChange, WorldHash,
    B256, U256, WORLD_HASH_BYTES, WORLD_HASH_LEN,
};

fn dummy_addr() -> Address {
    let word = [0xde, 0xad, 0xbe, 0xef];
    let mut bytes = [0u8; 20];
    for i in 0..20 {
        bytes[i] = word[i % 4];
    }
    Address(bytes)
}

fn account(nonce: u64, balance: u64) -> AccountState {
    AccountState { nonce, balance: U256::from_u64(balance), code_hash: B256::zero() }
}

/// The lanes of the BLAKE3 output over the parts, fed one by one.
fn expected_lanes(parts: &[&[u8]]) -> Vec<u16> {
    let mut hasher = blake3::Hasher::new();
    for part in parts {
        hasher.update(part);
    }
    let mut bytes = [0u8; WORLD_HASH_BYTES];
    hasher.finalize_xof().fill(&mut bytes);
    bytes.chunks_exact(2).map(|c| u16::from_le_bytes([c[0], c[1]])).collect()
}

/// A world hash whose lanes are all `lane`.
fn filled(lane: u16) -> WorldHash {
    let le = lane.to_le_bytes();
    let mut bytes = [0u8; WORLD_HASH_BYTES];
    for i in 0..WORLD_HASH_LEN {
        bytes[2 * i] = le[0];
        bytes[2 * i + 1] = le[1];
    }
    WorldHash::from_bytes(&bytes)
}

#[test]
fn test_empty_state_root_is_deterministic() {
    let w1 = WorldHash::new();
    let w2 = WorldHash::new();
    assert_eq!(w1.state_root(), w2.state_root());
}

#[test]
fn test_add_remove_is_identity() {
    let mut world = WorldHash::new();
    let empty_root = world.state_root();

    let entry = EntryHash::for_account(&dummy_addr(), 1, U256::from_u64(100), B256::zero());
    world.add(&entry);
    assert_ne!(world.state_root(), empty_root);

    world.remove(&entry);
    assert_eq!(world.state_root(), empty_root);
}

#[test]
fn test_commutativity() {
    let addr1 = Address([0x11; 20]);
    let addr2 = Address([0x22; 20]);

    let e1 = EntryHash::for_account(&addr1, 1, U256::from_u64(100), B256::zero());
    let e2 = EntryHash::for_account(&addr2, 2, U256::from_u64(200), B256::zero());

    let mut w1 = WorldHash::new();
    w1.add(&e1);
    w1.add(&e2);

    let mut w2 = WorldHash::new();
    w2.add(&e2);
    w2.add(&e1);

    assert_eq!(w1.state_root(), w2.state_root());
}

#[test]
fn test_update_is_remove_then_add() {
    let addr = dummy_addr();
    let old_state = account(1, 100);
    let new_state = account(2, 200);

    let mut w1 = WorldHash::new();
    let old_hash =
        EntryHash::for_account(&addr, old_state.nonce, old_state.balance, old_state.code_hash);
    w1.add(&old_hash);
    let new_hash =
        EntryHash::for_account(&addr, new_state.nonce, new_state.balance, new_state.code_hash);
    w1.update(&old_hash, &new_hash);

    let mut w2 = WorldHash::new();
    w2.add(&old_hash);
    w2.remove(&old_hash);
    w2.add(&new_hash);

    assert_eq!(w1.state_root(), w2.state_root());
}

#[test]
fn test_sequential_parallel_equivalence() {
    let changes: Vec<StateChange> = (0..100u64)
        .map(|i| StateChange::Account {
            addr: Address([i as u8; 20]),
            old: None,
            new: AccountState {
                nonce: i,
                balance: U256::from_u64(i * 1000u64),
                code_hash: B256::zero(),
            },
        })
        .collect();

    let mut w_seq = WorldHash::new();
    apply_sequential(&mut w_seq, &changes);

    let mut w_par = WorldHash::new();
    apply_parallel(&mut w_par, &changes);

    assert_eq!(w_seq.state_root(), w_par.state_root());
}

#[test]
fn test_serialization_roundtrip() {
    let mut world = WorldHash::new();
    let entry = EntryHash::for_account(&dummy_addr(), 42, U256::from_u64(9999), B256::zero());
    world.add(&entry);

    let bytes = world.to_bytes();
    let restored = WorldHash::from_bytes(&bytes);
    assert_eq!(world, restored);
    assert_eq!(world.state_root(), restored.state_root());
}

#[test]
fn message_joins_domain_key_and_value() {
    let message = build_entry_message(&[7, 8], &[9]);
    assert_eq!(message, b"lthash-evm-state-v1\x00\x07\x08\x00\x09".to_vec());
    assert_eq!(build_entry_message(&[], &[]), b"lthash-evm-state-v1\x00\x00".to_vec());
}

#[test]
fn compute_hashes_key_and_value() {
    let entry = EntryHash::compute(b"key", b"value");
    let expected = expected_lanes(&[b"lthash-evm-state-v1", b"\x00", b"key", b"\x00", b"value"]);
    assert_eq!(entry.as_elements().to_vec(), expected);
}

#[test]
fn account_entry_layout() {
    let addr = dummy_addr();
    let code_hash = B256([0x5a; 32]);
    let balance = U256::from_u128(0x0102_0304_0506_0708_090a_0b0c_0d0e_0f10);
    let entry = EntryHash::for_account(&addr, 0x1122_3344, balance, code_hash);
    let mut key = vec![0x00];
    key.extend_from_slice(&addr.0);
    let mut value = 0x1122_3344u64.to_le_bytes().to_vec();
    let number = alloy_primitives::U256::from(0x0102_0304_0506_0708_090a_0b0c_0d0e_0f10u128);
    value.extend_from_slice(&number.to_le_bytes::<32>());
    value.extend_from_slice(&code_hash.0);
    let expected = expected_lanes(&[b"lthash-evm-state-v1", b"\x00", &key, b"\x00", &value]);
    assert_eq!(entry.as_elements().to_vec(), expected);
}

#[test]
fn storage_entry_layout() {
    let addr = dummy_addr();
    let slot = B256([3; 32]);
    let entry = EntryHash::for_storage(&addr, slot, U256::from_u64(0x0a0b));
    let mut key = vec![0x01];
    key.extend_from_slice(&addr.0);
    key.extend_from_slice(&slot.0);
    let mut value = [0u8; 32];
    value[30] = 0x0a;
    value[31] = 0x0b;
    let expected = expected_lanes(&[b"lthash-evm-state-v1", b"\x00", &key, b"\x00", &value]);
    assert_eq!(entry.as_elements().to_vec(), expected);
}

#[test]
fn entry_lanes_are_little_endian() {
    let mut bytes = [0u8; WORLD_HASH_BYTES];
    bytes[0] = 0x34;
    bytes[1] = 0x12;
    bytes[2047] = 0xff;
    let entry = EntryHash::from_bytes(&bytes);
    assert_eq!(entry.as_elements()[0], 0x1234);
    assert_eq!(entry.as_elements()[1], 0);
    assert_eq!(entry.as_elements()[1023], 0xff00);
    assert_eq!(entry.clone(), entry);
}

#[test]
fn lanes_wrap_around() {
    let mut world = filled(0xffff);
    world.merge(&filled(2));
    assert_eq!(world, filled(1));
    world.subtract(&filled(3));
    assert_eq!(world, filled(0xfffe));
    world.subtract(&filled(0xfffe));
    assert_eq!(world, WorldHash::default());
}

#[test]
fn subtract_undoes_merge() {
    let mut world = filled(12345);
    let copy = world.clone();
    world.merge(&filled(54321));
    assert_ne!(world, copy);
    world.subtract(&filled(54321));
    assert_eq!(world, copy);
}

#[test]
fn world_bytes_round_trip() {
    let mut bytes = [0u8; WORLD_HASH_BYTES];
    for i in 0..WORLD_HASH_BYTES {
        bytes[i] = (i * 7 + i / 256) as u8;
    }
    assert_eq!(WorldHash::from_bytes(&bytes).to_bytes(), bytes);
}

#[test]
fn state_root_is_digest_of_world_bytes() {
    let empty = WorldHash::new();
    assert_eq!(&empty.state_root().0, blake3::hash(&[0u8; WORLD_HASH_BYTES]).as_bytes());
    let world = filled(77);
    assert_eq!(&world.state_root().0, blake3::hash(&world.to_bytes()).as_bytes());
}

#[test]
fn account_changes_move_the_hash() {
    let addr = dummy_addr();
    let (a, b) = (account(1, 10), account(2, 20));
    let hash = |s: AccountState| EntryHash::for_account(&addr, s.nonce, s.balance, s.code_hash);

    let mut world = WorldHash::new();
    apply_one(&mut world, &StateChange::Account { addr, old: None, new: a });
    let mut expected = WorldHash::new();
    expected.add(&hash(a));
    assert_eq!(world, expected);

    apply_one(&mut world, &StateChange::Account { addr, old: Some(a), new: b });
    let mut expected = WorldHash::new();
    expected.add(&hash(b));
    assert_eq!(world, expected);

    apply_one(&mut world, &StateChange::DeleteAccount { addr, old: b });
    assert_eq!(world, WorldHash::new());
}

#[test]
fn storage_changes_move_the_hash() {
    let addr = dummy_addr();
    let slot = B256([9; 32]);
    let set = |old: u64, new: u64| StateChange::Storage {
        addr,
        slot,
        old_value: U256::from_u64(old),
        new_value: U256::from_u64(new),
    };
    let only = |value: u64| {
        let mut world = WorldHash::new();
        world.add(&EntryHash::for_storage(&addr, slot, U256::from_u64(value)));
        world
    };

    let mut world = WorldHash::new();
    apply_one(&mut world, &set(0, 0));
    assert_eq!(world, WorldHash::new());
    apply_one(&mut world, &set(0, 5));
    assert_eq!(world, only(5));
    apply_one(&mut world, &set(5, 5));
    assert_eq!(world, only(5));
    apply_one(&mut world, &set(5, 6));
    assert_eq!(world, only(6));
    apply_one(&mut world, &set(6, 0));
    assert_eq!(world, WorldHash::new());
}

#[test]
fn old_values_are_taken_at_their_word() {
    // A delete of what was never inserted still moves the hash.
    let addr = dummy_addr();
    let mut world = WorldHash::new();
    apply_one(&mut world, &StateChange::DeleteAccount { addr, old: account(1, 1) });
    assert_ne!(world, WorldHash::new());
}

#[test]
fn hash_is_sum_of_entries_whatever_the_history() {
    let (a1, a2) = (Address([1; 20]), Address([2; 20]));
    let slot = B256([4; 32]);
    let zero = U256::zero();
    let long = vec![
        StateChange::Account { addr: a1, old: None, new: account(1, 1) },
        StateChange::Account { addr: a2, old: None, new: account(7, 7) },
        StateChange::Account { addr: a1, old: Some(account(1, 1)), new: account(2, 5) },
        StateChange::Storage { addr: a1, slot, old_value: zero, new_value: U256::from_u64(3) },
        StateChange::DeleteAccount { addr: a2, old: account(7, 7) },
        StateChange::Storage {
            addr: a1,
            slot,
            old_value: U256::from_u64(3),
            new_value: U256::from_u64(4),
        },
    ];
    let short = vec![
        StateChange::Storage { addr: a1, slot, old_value: zero, new_value: U256::from_u64(4) },
        StateChange::Account { addr: a1, old: None, new: account(2, 5) },
    ];
    let mut w_long = WorldHash::new();
    apply_sequential(&mut w_long, &long);
    let mut w_short = WorldHash::new();
    apply_parallel(&mut w_short, &short);
    assert_eq!(w_long, w_short);

    let mut sum = WorldHash::new();
    sum.add(&EntryHash::for_account(&a1, 2, U256::from_u64(5), B256::zero()));
    sum.add(&EntryHash::for_storage(&a1, slot, U256::from_u64(4)));
    assert_eq!(w_long, sum);
}

#[test]
fn order_and_cuts_of_a_batch_do_not_matter() {
    let changes: Vec<StateChange> = (0..20u64)
        .map(|i| StateChange::Storage {
            addr: dummy_addr(),
            slot: B256([i as u8; 32]),
            old_value: U256::from_u64(i % 3),
            new_value: U256::from_u64(i % 4),
        })
        .collect();
    let mut reversed = changes.clone();
    reversed.reverse();

    let start = filled(4321);
    let mut w1 = start.clone();
    apply_sequential(&mut w1, &changes);
    let mut w2 = start.clone();
    apply_parallel(&mut w2, &reversed);
    assert_eq!(w1, w2);

    let mut w3 = start.clone();
    apply_parallel(&mut w3, &changes[..7]);
    apply_sequential(&mut w3, &changes[7..]);
    assert_eq!(w1, w3);
}

#[test]
fn empty_batch_changes_nothing() {
    let mut world = filled(99);
    apply_sequential(&mut world, &[]);
    apply_parallel(&mut world, &[]);
    assert_eq!(world, filled(99));
}

#[test]
fn accounts_and_slots_hash_distinct_messages() {
    let addr = dummy_addr();
    let base = EntryHash::for_account(&addr, 0, U256::zero(), B256::zero());
    assert_ne!(base, EntryHash::for_account(&addr, 1, U256::zero(), B256::zero()));
    assert_ne!(base, EntryHash::for_account(&addr, 0, U256::from_u64(1), B256::zero()));
    assert_ne!(base, EntryHash::for_account(&addr, 0, U256::zero(), B256([1; 32])));
    assert_ne!(base, EntryHash::for_account(&Address([0; 20]), 0, U256::zero(), B256::zero()));
    let slot = EntryHash::for_storage(&addr, B256::zero(), U256::zero());
    assert_ne!(base, slot);
    assert_ne!(slot, EntryHash::for_storage(&addr, B256([1; 32]), U256::zero()));
    assert_ne!(slot, EntryHash::for_storage(&addr, B256::zero(), U256::from_u64(1)));
}
