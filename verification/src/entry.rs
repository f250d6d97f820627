//! The lattice hash of a single key and value.

use vstd::prelude::*;

use crate::account::{
    account_bytes, encode_account, law_account_survives_bytes, AccountState, AccountView,
};
use crate::bytes::{be_bytes, copy_into, law_value_survives_be_bytes, pow256};
use crate::lattice::{lanes_from_bytes, lanes_of_bytes, WORLD_HASH_BYTES, WORLD_HASH_LEN};
use crate::outside;
use crate::outside::blake3_xof_2048;
use crate::primitives::{Address, B256, U256};

verus! {

/// Domain separation of the entry hash: the bytes of `lthash-evm-state-v1`.
pub const LTHASH_DOMAIN: [u8; 19] = [
    0x6c, 0x74, 0x68, 0x61, 0x73, 0x68, 0x2d, 0x65, 0x76, 0x6d, 0x2d, 0x73, 0x74, 0x61, 0x74,
    0x65, 0x2d, 0x76, 0x31,
];

/// What is hashed for an entry: the domain, a null byte, the key, a null byte
/// and the value.
pub open spec fn entry_message(key: Seq<u8>, value: Seq<u8>) -> Seq<u8> {
    LTHASH_DOMAIN@ + seq![0u8] + key + seq![0u8] + value
}

/// The lanes of the hash of an entry.
pub open spec fn entry_lanes(key: Seq<u8>, value: Seq<u8>) -> Seq<u16> {
    lanes_of_bytes(blake3_xof_2048(entry_message(key, value)))
}

/// The key under which an account is hashed: `[0x00] || addr(20B)`.
pub open spec fn account_entry_key(addr: Seq<u8>) -> Seq<u8> {
    seq![0u8] + addr
}

/// The key under which a storage slot is hashed:
/// `[0x01] || addr(20B) || slot(32B)`.
pub open spec fn storage_entry_key(addr: Seq<u8>, slot: Seq<u8>) -> Seq<u8> {
    seq![1u8] + addr + slot
}

/// What is hashed for an account.
pub open spec fn account_message(addr: Seq<u8>, account: AccountView) -> Seq<u8> {
    entry_message(account_entry_key(addr), account_bytes(account))
}

/// What is hashed for a storage slot that holds `value`.
pub open spec fn storage_message(addr: Seq<u8>, slot: Seq<u8>, value: nat) -> Seq<u8> {
    entry_message(storage_entry_key(addr, slot), be_bytes(value, 32))
}

/// The lanes of the hash of an account.
pub open spec fn account_lanes(addr: Seq<u8>, account: AccountView) -> Seq<u16> {
    entry_lanes(account_entry_key(addr), account_bytes(account))
}

/// The lanes of the hash of a storage slot that holds `value`.
pub open spec fn storage_lanes(addr: Seq<u8>, slot: Seq<u8>, value: nat) -> Seq<u16> {
    entry_lanes(storage_entry_key(addr, slot), be_bytes(value, 32))
}

/// The hash of a single entry.
#[derive(Debug, PartialEq, Eq)]
pub struct EntryHash([u16; WORLD_HASH_LEN]);

impl View for EntryHash {
    type V = Seq<u16>;

    closed spec fn view(&self) -> Seq<u16> {
        self.0@
    }
}

/// The hash of an entry has 1024 lanes.
pub broadcast proof fn lemma_entry_hash_len(entry: EntryHash)
    ensures
        #[trigger] entry@.len() == WORLD_HASH_LEN,
{
}

impl Clone for EntryHash {
    fn clone(&self) -> (copy: Self)
        ensures
            copy@ == self@,
    {
        EntryHash(self.0)
    }
}

/// Builds what is hashed for an entry.
pub fn build_entry_message(key: &[u8], value: &[u8]) -> (message: Vec<u8>)
    ensures
        message@ == entry_message(key@, value@),
{
    let mut message: Vec<u8> = Vec::new();
    let domain = LTHASH_DOMAIN;
    message.extend_from_slice(&domain);
    message.push(0u8);
    message.extend_from_slice(key);
    message.push(0u8);
    message.extend_from_slice(value);
    assert(message@ =~= entry_message(key@, value@));
    message
}

impl EntryHash {
    /// The hash of an account entry.
    ///
    /// Key: `[0x00] || address(20B)`.
    /// Value: `nonce(8B LE) || balance(32B LE) || code_hash(32B)`.
    pub fn for_account(addr: &Address, nonce: u64, balance: U256, code_hash: B256) -> (entry: Self)
        ensures
            entry@ == account_lanes(
                addr@,
                (AccountView { nonce, balance: balance@, code_hash: code_hash@ }),
            ),
    {
        let mut key = [0u8; 21];
        key[0] = 0x00;
        copy_into(&mut key, 1, &addr.0);
        assert(key@ =~= account_entry_key(addr@));
        let value = encode_account(&AccountState { nonce, balance, code_hash });
        Self::compute(&key, &value)
    }

    /// The hash of a storage entry.
    ///
    /// Key: `[0x01] || address(20B) || slot(32B)`.
    /// Value: `value(32B BE)`.
    pub fn for_storage(addr: &Address, slot: B256, value: U256) -> (entry: Self)
        ensures
            entry@ == storage_lanes(addr@, slot@, value@),
    {
        let mut key = [0u8; 53];
        key[0] = 0x01;
        copy_into(&mut key, 1, &addr.0);
        copy_into(&mut key, 21, &slot.0);
        assert(key@ =~= storage_entry_key(addr@, slot@));
        let val_bytes = value.to_be_bytes();
        Self::compute(&key, &val_bytes)
    }

    /// The hash of a key and a value.
    pub fn compute(key: &[u8], value: &[u8]) -> (entry: Self)
        ensures
            entry@ == entry_lanes(key@, value@),
    {
        let message = build_entry_message(key, value);
        let bytes = outside::blake3_expand(message.as_slice());
        Self::from_bytes(&bytes)
    }

    /// The vector that 2048 hash output bytes stand for.
    pub fn from_bytes(bytes: &[u8; WORLD_HASH_BYTES]) -> (entry: Self)
        ensures
            entry@ == lanes_of_bytes(bytes@),
    {
        EntryHash(lanes_from_bytes(bytes))
    }

    /// The lanes.
    pub fn as_elements(&self) -> (elements: &[u16; WORLD_HASH_LEN])
        ensures
            elements@ == self@,
    {
        &self.0
    }
}

/// The message of an entry determines what follows the domain.
proof fn lemma_message_tail(key: Seq<u8>, value: Seq<u8>)
    ensures
        entry_message(key, value).skip(20) == key + seq![0u8] + value,
{
    assert(entry_message(key, value).skip(20) =~= key + seq![0u8] + value);
}

/// Two accounts are hashed from the same message only if they are the same
/// account at the same address.
pub proof fn law_account_messages_are_distinct(
    addr1: Seq<u8>,
    account1: AccountView,
    addr2: Seq<u8>,
    account2: AccountView,
)
    requires
        addr1.len() == 20,
        addr2.len() == 20,
        account1.fits(),
        account2.fits(),
        entry_message(account_entry_key(addr1), account_bytes(account1)) == entry_message(
            account_entry_key(addr2),
            account_bytes(account2),
        ),
    ensures
        addr1 == addr2,
        account1 == account2,
{
    let (key1, key2) = (account_entry_key(addr1), account_entry_key(addr2));
    let (value1, value2) = (account_bytes(account1), account_bytes(account2));
    lemma_message_tail(key1, value1);
    lemma_message_tail(key2, value2);
    let (tail1, tail2) = (key1 + seq![0u8] + value1, key2 + seq![0u8] + value2);
    assert(tail1.subrange(1, 21) =~= addr1);
    assert(tail2.subrange(1, 21) =~= addr2);
    assert(tail1.skip(22) =~= value1);
    assert(tail2.skip(22) =~= value2);
    law_account_survives_bytes(account1);
    law_account_survives_bytes(account2);
}

/// Two slots are hashed from the same message only if they are the same slot
/// with the same value.
pub proof fn law_storage_messages_are_distinct(
    addr1: Seq<u8>,
    slot1: Seq<u8>,
    number1: nat,
    addr2: Seq<u8>,
    slot2: Seq<u8>,
    number2: nat,
)
    requires
        addr1.len() == 20,
        addr2.len() == 20,
        slot1.len() == 32,
        slot2.len() == 32,
        number1 < pow256(32),
        number2 < pow256(32),
        entry_message(storage_entry_key(addr1, slot1), be_bytes(number1, 32)) == entry_message(
            storage_entry_key(addr2, slot2),
            be_bytes(number2, 32),
        ),
    ensures
        addr1 == addr2,
        slot1 == slot2,
        number1 == number2,
{
    let (key1, key2) = (storage_entry_key(addr1, slot1), storage_entry_key(addr2, slot2));
    let (value1, value2) = (be_bytes(number1, 32), be_bytes(number2, 32));
    lemma_message_tail(key1, value1);
    lemma_message_tail(key2, value2);
    let (tail1, tail2) = (key1 + seq![0u8] + value1, key2 + seq![0u8] + value2);
    assert(tail1.subrange(1, 21) =~= addr1);
    assert(tail2.subrange(1, 21) =~= addr2);
    assert(tail1.subrange(21, 53) =~= slot1);
    assert(tail2.subrange(21, 53) =~= slot2);
    assert(tail1.skip(54) =~= value1);
    assert(tail2.skip(54) =~= value2);
    law_value_survives_be_bytes(number1, 32);
    law_value_survives_be_bytes(number2, 32);
}

/// An account and a slot are never hashed from the same message.
pub proof fn law_account_and_storage_messages_differ(
    addr1: Seq<u8>,
    value1: Seq<u8>,
    addr2: Seq<u8>,
    slot2: Seq<u8>,
    value2: Seq<u8>,
)
    ensures
        entry_message(account_entry_key(addr1), value1) != entry_message(
            storage_entry_key(addr2, slot2),
            value2,
        ),
{
    let (key1, key2) = (account_entry_key(addr1), storage_entry_key(addr2, slot2));
    lemma_message_tail(key1, value1);
    lemma_message_tail(key2, value2);
    assert((key1 + seq![0u8] + value1)[0] == 0);
    assert((key2 + seq![0u8] + value2)[0] == 1);
}

} // verus!
