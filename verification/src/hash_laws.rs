//! What the hashing operations give: each byte that is hashed and each lane of
//! a result, in terms of the inputs alone, and how two calls relate.

use vstd::arithmetic::power::pow;
use vstd::prelude::*;

use crate::account::{lemma_account_fits, AccountState, AccountView};
use crate::change::{
    apply_one, apply_parallel, apply_sequential, change_delta, change_deltas, total_delta,
    StateChange,
};
use crate::entry::{
    account_entry_key, account_message, build_entry_message, entry_message,
    law_account_and_storage_messages_differ, law_account_messages_are_distinct,
    law_storage_messages_are_distinct, storage_entry_key, storage_message, EntryHash,
    LTHASH_DOMAIN,
};
use crate::lattice::{
    law_lanes_survive_bytes, law_sum_associates, law_zero_is_neutral, lemma_lane_absorbs,
};
use crate::number_laws::{law_account_bytes_hold_every_field, law_be_bytes_are_digits};
use crate::outside::{blake3_digest, blake3_xof_2048};
use crate::primitives::{lemma_u256_bound, Address, B256, U256};
use crate::world::WorldHash;

verus! {

/// The message of an entry is `lthash-evm-state-v1`, a null byte, the whole key,
/// a null byte and the whole value.
pub proof fn law_entry_message_layout(key: &[u8], value: &[u8], message: Vec<u8>)
    requires
        call_ensures(build_entry_message, (key, value), message),
    ensures
        message@ == entry_message(key@, value@),
        message@.len() == 21 + key@.len() + value@.len(),
        message@.subrange(0, 20) == seq![
            0x6cu8, 0x74, 0x68, 0x61, 0x73, 0x68, 0x2d, 0x65, 0x76, 0x6d, 0x2d, 0x73, 0x74, 0x61,
            0x74, 0x65, 0x2d, 0x76, 0x31, 0x00,
        ],
        message@.subrange(20, 20 + key@.len() as int) == key@,
        message@[20 + key@.len() as int] == 0,
        message@.skip(21 + key@.len() as int) == value@,
{
    lemma_entry_message_layout(key@, value@);
}

proof fn lemma_entry_message_layout(key: Seq<u8>, value: Seq<u8>)
    ensures
        entry_message(key, value).len() == 21 + key.len() + value.len(),
        entry_message(key, value).subrange(0, 20) == seq![
            0x6cu8, 0x74, 0x68, 0x61, 0x73, 0x68, 0x2d, 0x65, 0x76, 0x6d, 0x2d, 0x73, 0x74, 0x61,
            0x74, 0x65, 0x2d, 0x76, 0x31, 0x00,
        ],
        entry_message(key, value).subrange(20, 20 + key.len() as int) == key,
        entry_message(key, value)[20 + key.len() as int] == 0,
        entry_message(key, value).skip(21 + key.len() as int) == value,
{
    let message = entry_message(key, value);
    let domain = LTHASH_DOMAIN;
    assert(domain@ == LTHASH_DOMAIN@);
    assert(message.subrange(0, 20) =~= domain@ + seq![0u8]);
    assert(message.subrange(20, 20 + key.len() as int) =~= key);
    assert(message.skip(21 + key.len() as int) =~= value);
}

/// The hash of a key and a value is the BLAKE3 output on their message, two
/// bytes to a lane, the low byte first.
pub proof fn law_entry_hash_is_output_on_message(
    key: &[u8],
    value: &[u8],
    message: Vec<u8>,
    entry: EntryHash,
)
    requires
        call_ensures(build_entry_message, (key, value), message),
        call_ensures(EntryHash::compute, (key, value), entry),
    ensures
        entry@.len() == 1024,
        forall|i: int|
            0 <= i < 1024 ==> #[trigger] entry@[i] == blake3_xof_2048(message@)[2 * i] + 0x100
                * blake3_xof_2048(message@)[2 * i + 1],
{
}

/// The message of an account holds its address, its nonce, its balance and its
/// code hash, every byte of each.
pub proof fn law_account_message_layout(addr: Seq<u8>, account: AccountView)
    requires
        addr.len() == 20,
        account.code_hash.len() == 32,
    ensures
        account_message(addr, account).len() == 114,
        account_message(addr, account).subrange(0, 20) == seq![
            0x6cu8, 0x74, 0x68, 0x61, 0x73, 0x68, 0x2d, 0x65, 0x76, 0x6d, 0x2d, 0x73, 0x74, 0x61,
            0x74, 0x65, 0x2d, 0x76, 0x31, 0x00,
        ],
        account_message(addr, account)[20] == 0,
        account_message(addr, account).subrange(21, 41) == addr,
        account_message(addr, account)[41] == 0,
        forall|k: int|
            0 <= k < 8 ==> account_message(addr, account)[42 + k] == (account.nonce as int
                / #[trigger] pow(256, k as nat)) % 256,
        forall|k: int|
            0 <= k < 32 ==> account_message(addr, account)[50 + k] == (account.balance as int
                / #[trigger] pow(256, k as nat)) % 256,
        account_message(addr, account).subrange(82, 114) == account.code_hash,
{
    let key = account_entry_key(addr);
    let value = crate::account::account_bytes(account);
    let message = account_message(addr, account);
    law_account_bytes_hold_every_field(account);
    lemma_entry_message_layout(key, value);
    assert(message.subrange(20, 41)[0] == key[0]);
    assert(message.subrange(21, 41) =~= addr) by {
        assert forall|k: int| 0 <= k < 20 implies message.subrange(21, 41)[k] == addr[k] by {
            assert(message.subrange(20, 41)[k + 1] == key[k + 1]);
        }
    }
    assert forall|k: int| 0 <= k < 72 implies message[42 + k] == #[trigger] value[k] by {
        assert(message.skip(42)[k] == value[k]);
    }
    assert forall|k: int| 0 <= k < 8 implies message[42 + k] == (account.nonce as int
        / #[trigger] pow(256, k as nat)) % 256 by {
        assert(message[42 + k] == value[k]);
    }
    assert forall|k: int| 0 <= k < 32 implies message[50 + k] == (account.balance as int
        / #[trigger] pow(256, k as nat)) % 256 by {
        assert(message[42 + (8 + k)] == value[8 + k]);
    }
    assert(message.subrange(82, 114) =~= account.code_hash) by {
        assert forall|k: int| 0 <= k < 32 implies message.subrange(82, 114)[k]
            == account.code_hash[k] by {
            assert(message[42 + (40 + k)] == value[40 + k]);
        }
    }
}

/// The message of a slot holds its address, the whole slot and the whole value,
/// the most significant byte of the value first.
pub proof fn law_storage_message_layout(addr: Seq<u8>, slot: Seq<u8>, value: nat)
    requires
        addr.len() == 20,
        slot.len() == 32,
    ensures
        storage_message(addr, slot, value).len() == 106,
        storage_message(addr, slot, value).subrange(0, 20) == seq![
            0x6cu8, 0x74, 0x68, 0x61, 0x73, 0x68, 0x2d, 0x65, 0x76, 0x6d, 0x2d, 0x73, 0x74, 0x61,
            0x74, 0x65, 0x2d, 0x76, 0x31, 0x00,
        ],
        storage_message(addr, slot, value)[20] == 1,
        storage_message(addr, slot, value).subrange(21, 41) == addr,
        storage_message(addr, slot, value).subrange(41, 73) == slot,
        storage_message(addr, slot, value)[73] == 0,
        forall|k: int|
            0 <= k < 32 ==> storage_message(addr, slot, value)[105 - k] == (value as int
                / #[trigger] pow(256, k as nat)) % 256,
{
    let key = storage_entry_key(addr, slot);
    let bytes = crate::bytes::be_bytes(value, 32);
    let message = storage_message(addr, slot, value);
    law_be_bytes_are_digits(value, 32, 0);
    lemma_entry_message_layout(key, bytes);
    assert forall|k: int| 0 <= k < 53 implies message[20 + k] == #[trigger] key[k] by {
        assert(message.subrange(20, 73)[k] == key[k]);
    }
    assert(message[20int + 0int] == key[0]);
    assert(message.subrange(21, 41) =~= addr) by {
        assert forall|k: int| 0 <= k < 20 implies message.subrange(21, 41)[k] == addr[k] by {
            assert(message[20 + (1 + k)] == key[1 + k]);
        }
    }
    assert(message.subrange(41, 73) =~= slot) by {
        assert forall|k: int| 0 <= k < 32 implies message.subrange(41, 73)[k] == slot[k] by {
            assert(message[20 + (21 + k)] == key[21 + k]);
        }
    }
    assert forall|k: int| 0 <= k < 32 implies message[105 - k] == (value as int / #[trigger] pow(
        256,
        k as nat,
    )) % 256 by {
        assert(message.skip(74)[31 - k] == bytes[31 - k]);
        law_be_bytes_are_digits(value, 32, 31 - k);
    }
}

/// The hash of an account is the BLAKE3 output on the message of that account,
/// and two accounts are hashed from one message if and only if address, nonce,
/// balance and code hash are all the same.
pub proof fn law_accounts_are_hashed_apart(
    addr1: Address,
    nonce1: u64,
    balance1: U256,
    code_hash1: B256,
    entry1: EntryHash,
    addr2: Address,
    nonce2: u64,
    balance2: U256,
    code_hash2: B256,
    entry2: EntryHash,
)
    requires
        call_ensures(EntryHash::for_account, (&addr1, nonce1, balance1, code_hash1), entry1),
        call_ensures(EntryHash::for_account, (&addr2, nonce2, balance2, code_hash2), entry2),
    ensures
        ({
            let message1 = account_message(
                addr1.0@,
                AccountView { nonce: nonce1, balance: balance1@, code_hash: code_hash1.0@ },
            );
            let message2 = account_message(
                addr2.0@,
                AccountView { nonce: nonce2, balance: balance2@, code_hash: code_hash2.0@ },
            );
            &&& forall|i: int|
                0 <= i < 1024 ==> #[trigger] entry1@[i] == blake3_xof_2048(message1)[2 * i] + 0x100
                    * blake3_xof_2048(message1)[2 * i + 1]
            &&& message1 == message2 <==> {
                &&& addr1.0@ == addr2.0@
                &&& nonce1 == nonce2
                &&& balance1@ == balance2@
                &&& code_hash1.0@ == code_hash2.0@
            }
        }),
{
    let account1 = AccountState { nonce: nonce1, balance: balance1, code_hash: code_hash1 };
    let account2 = AccountState { nonce: nonce2, balance: balance2, code_hash: code_hash2 };
    lemma_account_fits(account1);
    lemma_account_fits(account2);
    if account_message(addr1@, account1@) == account_message(addr2@, account2@) {
        law_account_messages_are_distinct(addr1@, account1@, addr2@, account2@);
    }
}

/// The hash of a slot is the BLAKE3 output on the message of that slot, and two
/// slots are hashed from one message if and only if address, slot and value are
/// all the same.
pub proof fn law_slots_are_hashed_apart(
    addr1: Address,
    slot1: B256,
    value1: U256,
    entry1: EntryHash,
    addr2: Address,
    slot2: B256,
    value2: U256,
    entry2: EntryHash,
)
    requires
        call_ensures(EntryHash::for_storage, (&addr1, slot1, value1), entry1),
        call_ensures(EntryHash::for_storage, (&addr2, slot2, value2), entry2),
    ensures
        ({
            let message1 = storage_message(addr1.0@, slot1.0@, value1@);
            let message2 = storage_message(addr2.0@, slot2.0@, value2@);
            &&& forall|i: int|
                0 <= i < 1024 ==> #[trigger] entry1@[i] == blake3_xof_2048(message1)[2 * i] + 0x100
                    * blake3_xof_2048(message1)[2 * i + 1]
            &&& message1 == message2 <==> {
                &&& addr1.0@ == addr2.0@
                &&& slot1.0@ == slot2.0@
                &&& value1@ == value2@
            }
        }),
{
    lemma_u256_bound(value1);
    lemma_u256_bound(value2);
    if storage_message(addr1@, slot1@, value1@) == storage_message(addr2@, slot2@, value2@) {
        law_storage_messages_are_distinct(addr1@, slot1@, value1@, addr2@, slot2@, value2@);
    }
}

/// An account and a slot are never hashed from one message.
pub proof fn law_account_and_slot_are_hashed_apart(
    addr1: Seq<u8>,
    account: AccountView,
    addr2: Seq<u8>,
    slot: Seq<u8>,
    value: nat,
)
    ensures
        account_message(addr1, account) != storage_message(addr2, slot, value),
{
    law_account_and_storage_messages_differ(
        addr1,
        crate::account::account_bytes(account),
        addr2,
        slot,
        crate::bytes::be_bytes(value, 32),
    );
}

/// The lanes of an entry hash, and of a world hash, that is read from bytes:
/// two bytes to a lane, the low byte first.
pub proof fn law_hashes_of_bytes(
    bytes: &[u8; 2048],
    entry: EntryHash,
    elements: &[u16; 1024],
    world: WorldHash,
)
    requires
        call_ensures(EntryHash::from_bytes, (bytes,), entry),
        call_ensures(EntryHash::as_elements, (&entry,), elements),
        call_ensures(WorldHash::from_bytes, (bytes,), world),
    ensures
        elements@ == entry@,
        entry@.len() == 1024,
        world@.len() == 1024,
        forall|i: int|
            0 <= i < 1024 ==> #[trigger] entry@[i] == bytes@[2 * i] + 0x100 * bytes@[2 * i + 1],
        forall|i: int|
            0 <= i < 1024 ==> #[trigger] world@[i] == bytes@[2 * i] + 0x100 * bytes@[2 * i + 1],
{
}

/// The fresh world hash is zero in every lane.
pub proof fn law_fresh_world_hash_is_zero(world: WorldHash)
    requires
        call_ensures(WorldHash::new, (), world) || call_ensures(
            <WorldHash as Default>::default,
            (),
            world,
        ),
    ensures
        world@.len() == 1024,
        forall|i: int| 0 <= i < 1024 ==> #[trigger] world@[i] == 0,
{
}

/// Adding an entry adds each of its lanes, modulo 2^16.
pub proof fn law_adding_adds_each_lane(world: &mut WorldHash, entry: EntryHash)
    requires
        call_ensures(WorldHash::add, (world, &entry), ()),
    ensures
        final(world)@.len() == 1024,
        forall|i: int|
            0 <= i < 1024 ==> #[trigger] final(world)@[i] == (old(world)@[i] + entry@[i]) % 0x10000,
{
}

/// Removing an entry takes each of its lanes out, modulo 2^16.
pub proof fn law_removing_takes_each_lane(world: &mut WorldHash, entry: EntryHash)
    requires
        call_ensures(WorldHash::remove, (world, &entry), ()),
    ensures
        final(world)@.len() == 1024,
        forall|i: int|
            0 <= i < 1024 ==> #[trigger] final(world)@[i] == (old(world)@[i] - entry@[i]) % 0x10000,
{
}

/// Updating an entry takes each lane of the old hash out and adds that of the
/// new one, modulo 2^16.
pub proof fn law_updating_exchanges_each_lane(
    world: &mut WorldHash,
    old_entry: EntryHash,
    new_entry: EntryHash,
)
    requires
        call_ensures(WorldHash::update, (world, &old_entry, &new_entry), ()),
    ensures
        final(world)@.len() == 1024,
        forall|i: int|
            0 <= i < 1024 ==> #[trigger] final(world)@[i] == (old(world)@[i] - old_entry@[i]
                + new_entry@[i]) % 0x10000,
{
    assert forall|i: int| 0 <= i < 1024 implies #[trigger] final(world)@[i] == (old(world)@[i]
        - old_entry@[i] + new_entry@[i]) % 0x10000 by {
        lemma_lane_absorbs(old(world)@[i] - old_entry@[i], new_entry@[i] as int);
    }
}

/// Merging adds each lane of the other world hash, modulo 2^16.
pub proof fn law_merging_adds_each_lane(world: &mut WorldHash, other: WorldHash)
    requires
        call_ensures(WorldHash::merge, (world, &other), ()),
    ensures
        final(world)@.len() == 1024,
        forall|i: int|
            0 <= i < 1024 ==> #[trigger] final(world)@[i] == (old(world)@[i] + other@[i]) % 0x10000,
{
}

/// Subtracting takes each lane of the other world hash out, modulo 2^16.
pub proof fn law_subtracting_takes_each_lane(world: &mut WorldHash, other: WorldHash)
    requires
        call_ensures(WorldHash::subtract, (world, &other), ()),
    ensures
        final(world)@.len() == 1024,
        forall|i: int|
            0 <= i < 1024 ==> #[trigger] final(world)@[i] == (old(world)@[i] - other@[i]) % 0x10000,
{
}

/// The bytes of a world hash hold every lane, the low byte first, and the state
/// root is the BLAKE3 digest of exactly these bytes.
pub proof fn law_state_root_is_digest_of_bytes(world: WorldHash, bytes: [u8; 2048], root: B256)
    requires
        call_ensures(WorldHash::to_bytes, (&world,), bytes),
        call_ensures(WorldHash::state_root, (&world,), root),
    ensures
        world@.len() == 1024,
        forall|i: int|
            0 <= i < 1024 ==> #[trigger] world@[i] == bytes@[2 * i] + 0x100 * bytes@[2 * i + 1],
        root.0@ == blake3_digest(bytes@),
{
    broadcast use crate::world::lemma_world_hash_len;

    law_lanes_survive_bytes(world@);
}

/// Two world hashes that differ in any lane are digested from different bytes,
/// and two that agree in every lane have one root.
pub proof fn law_state_root_covers_every_lane(
    world1: WorldHash,
    bytes1: [u8; 2048],
    root1: B256,
    world2: WorldHash,
    bytes2: [u8; 2048],
    root2: B256,
)
    requires
        call_ensures(WorldHash::to_bytes, (&world1,), bytes1),
        call_ensures(WorldHash::state_root, (&world1,), root1),
        call_ensures(WorldHash::to_bytes, (&world2,), bytes2),
        call_ensures(WorldHash::state_root, (&world2,), root2),
    ensures
        root1.0@ == blake3_digest(bytes1@),
        root2.0@ == blake3_digest(bytes2@),
        (exists|i: int| 0 <= i < 1024 && world1@[i] != world2@[i]) ==> bytes1@ != bytes2@,
        (forall|i: int| 0 <= i < 1024 ==> world1@[i] == world2@[i]) ==> root1.0@ == root2.0@,
{
    broadcast use crate::world::lemma_world_hash_len;

    law_lanes_survive_bytes(world1@);
    law_lanes_survive_bytes(world2@);
    if forall|i: int| 0 <= i < 1024 ==> world1@[i] == world2@[i] {
        assert(world1@ =~= world2@);
    }
}

/// Inserting an account adds its hash. Replacing one takes the hash of the old
/// account out and adds that of the new one.
pub proof fn law_account_change_moves_world_hash(
    world: &mut WorldHash,
    addr: Address,
    old_account: Option<AccountState>,
    new: AccountState,
    old_entry: EntryHash,
    new_entry: EntryHash,
)
    requires
        call_ensures(
            apply_one,
            (world, &StateChange::Account { addr, old: old_account, new }),
            (),
        ),
        call_ensures(
            EntryHash::for_account,
            (&addr, new.nonce, new.balance, new.code_hash),
            new_entry,
        ),
        old_account matches Some(account) ==> call_ensures(
            EntryHash::for_account,
            (&addr, account.nonce, account.balance, account.code_hash),
            old_entry,
        ),
    ensures
        final(world)@.len() == 1024,
        forall|i: int|
            0 <= i < 1024 ==> #[trigger] final(world)@[i] == (if old_account is Some {
                (old(world)@[i] - old_entry@[i] + new_entry@[i]) % 0x10000
            } else {
                (old(world)@[i] + new_entry@[i]) % 0x10000
            }),
{
    assert forall|i: int| 0 <= i < 1024 implies #[trigger] final(world)@[i] == (
    if old_account is Some {
        (old(world)@[i] - old_entry@[i] + new_entry@[i]) % 0x10000
    } else {
        (old(world)@[i] + new_entry@[i]) % 0x10000
    }) by {
        lemma_lane_absorbs(new_entry@[i] - old_entry@[i], old(world)@[i] as int);
    }
}

/// Deleting an account takes its hash out.
pub proof fn law_deletion_moves_world_hash(
    world: &mut WorldHash,
    addr: Address,
    account: AccountState,
    entry: EntryHash,
)
    requires
        call_ensures(
            apply_one,
            (world, &StateChange::DeleteAccount { addr, old: account }),
            (),
        ),
        call_ensures(
            EntryHash::for_account,
            (&addr, account.nonce, account.balance, account.code_hash),
            entry,
        ),
    ensures
        final(world)@.len() == 1024,
        forall|i: int|
            0 <= i < 1024 ==> #[trigger] final(world)@[i] == (old(world)@[i] - entry@[i]) % 0x10000,
{
    assert forall|i: int| 0 <= i < 1024 implies #[trigger] final(world)@[i] == (old(world)@[i]
        - entry@[i]) % 0x10000 by {
        lemma_lane_absorbs(-entry@[i], old(world)@[i] as int);
    }
}

/// Setting a slot takes the hash of the old value out, unless it is zero, and
/// adds that of the new value, unless it is zero.
pub proof fn law_slot_change_moves_world_hash(
    world: &mut WorldHash,
    addr: Address,
    slot: B256,
    old_value: U256,
    new_value: U256,
    old_entry: EntryHash,
    new_entry: EntryHash,
)
    requires
        call_ensures(
            apply_one,
            (world, &StateChange::Storage { addr, slot, old_value, new_value }),
            (),
        ),
        call_ensures(EntryHash::for_storage, (&addr, slot, old_value), old_entry),
        call_ensures(EntryHash::for_storage, (&addr, slot, new_value), new_entry),
    ensures
        final(world)@.len() == 1024,
        forall|i: int|
            0 <= i < 1024 ==> #[trigger] final(world)@[i] == (old(world)@[i] - (if old_value@ == 0 {
                0
            } else {
                old_entry@[i] as int
            }) + (if new_value@ == 0 {
                0
            } else {
                new_entry@[i] as int
            })) % 0x10000,
{
    assert forall|i: int| 0 <= i < 1024 implies #[trigger] final(world)@[i] == (old(world)@[i] - (
    if old_value@ == 0 {
        0
    } else {
        old_entry@[i] as int
    }) + (if new_value@ == 0 {
        0
    } else {
        new_entry@[i] as int
    })) % 0x10000 by {
        let taken = if old_value@ == 0 {
            0
        } else {
            old_entry@[i] as int
        };
        let put = if new_value@ == 0 {
            0
        } else {
            new_entry@[i] as int
        };
        lemma_lane_absorbs(put - taken, old(world)@[i] as int);
    }
}

/// Applying no changes does nothing.
pub proof fn law_empty_batch_moves_nothing(
    sequential: &mut WorldHash,
    parallel: &mut WorldHash,
    changes: &[StateChange],
)
    requires
        changes@.len() == 0,
        call_ensures(apply_sequential, (sequential, changes), ()),
        call_ensures(apply_parallel, (parallel, changes), ()),
    ensures
        final(sequential)@ == old(sequential)@,
        final(parallel)@ == old(parallel)@,
{
    broadcast use crate::world::lemma_world_hash_len;

    law_zero_is_neutral(old(sequential)@);
    law_zero_is_neutral(old(parallel)@);
}

/// Applying a batch with one more change is applying the batch and then the
/// change, for every change and every batch.
pub proof fn law_batch_is_applied_change_by_change(
    first: &mut WorldHash,
    next: &mut WorldHash,
    whole: &mut WorldHash,
    changes: &[StateChange],
    change: StateChange,
    more: &[StateChange],
)
    requires
        more@ == changes@.push(change),
        call_ensures(apply_sequential, (first, changes), ()),
        call_ensures(apply_one, (next, &change), ()),
        call_ensures(apply_sequential, (whole, more), ()),
        old(next)@ == final(first)@,
        old(whole)@ == old(first)@,
    ensures
        final(whole)@ == final(next)@,
{
    let deltas = change_deltas(more@);
    assert(deltas.drop_last() =~= change_deltas(changes@));
    assert(deltas.last() == change_delta(change));
    law_sum_associates(old(first)@, total_delta(changes@), change_delta(change));
}

/// Applying a batch in parallel gives what applying it in sequence gives.
pub proof fn law_parallel_equals_sequential(
    sequential: &mut WorldHash,
    parallel: &mut WorldHash,
    changes: &[StateChange],
)
    requires
        old(sequential)@ == old(parallel)@,
        call_ensures(apply_sequential, (sequential, changes), ()),
        call_ensures(apply_parallel, (parallel, changes), ()),
    ensures
        final(sequential)@ == final(parallel)@,
{
}

} // verus!
