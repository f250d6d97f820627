//! Accounts and the byte forms in which accounts and storage keys are kept.

use vstd::prelude::*;

use crate::bytes::{
    copy_into, law_le_bytes_survive_value, law_value_survives_le_bytes, le_bytes, le_value,
    lemma_le_bytes_len, lemma_le_value_bound, pow256, u64_from_le_bytes, u64_to_le_bytes,
};
use crate::error::DbError;
use crate::primitives::{Address, B256, U256};

verus! {

/// Length of the byte form of an account.
pub const ACCOUNT_BYTES: usize = 72;

/// Length of a storage key.
pub const STORAGE_KEY_BYTES: usize = 52;

/// The fields of an account that the commitment covers.
#[derive(Clone, Copy, Debug, PartialEq, Eq)]
pub struct AccountState {
    pub nonce: u64,
    pub balance: U256,
    pub code_hash: B256,
}

/// The values of the fields of an account.
#[verifier::ext_equal]
pub struct AccountView {
    pub nonce: u64,
    pub balance: nat,
    pub code_hash: Seq<u8>,
}

impl View for AccountState {
    type V = AccountView;

    open spec fn view(&self) -> AccountView {
        AccountView { nonce: self.nonce, balance: self.balance@, code_hash: self.code_hash@ }
    }
}

/// The values of the fields of an account, if there is one.
pub open spec fn account_view(account: Option<AccountState>) -> Option<AccountView> {
    match account {
        Some(account) => Some(account@),
        None => None,
    }
}

impl AccountView {
    /// The balance fits in 32 bytes and the code hash has 32 bytes.
    pub open spec fn fits(self) -> bool {
        &&& self.balance < pow256(32)
        &&& self.code_hash.len() == 32
    }
}

/// The byte form of an account:
/// `nonce(8B LE) || balance(32B LE) || code_hash(32B)`.
pub open spec fn account_bytes(account: AccountView) -> Seq<u8> {
    le_bytes(account.nonce as nat, 8) + le_bytes(account.balance, 32) + account.code_hash
}

/// The account that 72 bytes hold.
pub open spec fn account_of_bytes(bytes: Seq<u8>) -> AccountView {
    AccountView {
        nonce: le_value(bytes.subrange(0, 8)) as u64,
        balance: le_value(bytes.subrange(8, 40)),
        code_hash: bytes.subrange(40, 72),
    }
}

/// The key of a storage slot: `addr(20B) || slot(32B)`.
pub open spec fn storage_key(addr: Seq<u8>, slot: Seq<u8>) -> Seq<u8> {
    addr + slot
}

/// Every account fits its byte form.
pub proof fn lemma_account_fits(account: AccountState)
    ensures
        account@.fits(),
{
    crate::primitives::lemma_u256_bound(account.balance);
}

/// The byte form of an account has 72 bytes, and reading it back gives the
/// account.
pub proof fn law_account_survives_bytes(account: AccountView)
    requires
        account.fits(),
    ensures
        account_bytes(account).len() == ACCOUNT_BYTES,
        account_of_bytes(account_bytes(account)) == account,
{
    let bytes = account_bytes(account);
    lemma_le_bytes_len(account.nonce as nat, 8);
    lemma_le_bytes_len(account.balance, 32);
    assert(bytes.subrange(0, 8) =~= le_bytes(account.nonce as nat, 8));
    assert(bytes.subrange(8, 40) =~= le_bytes(account.balance, 32));
    assert(bytes.subrange(40, 72) =~= account.code_hash);
    assert(account.nonce < pow256(8)) by {
        reveal_with_fuel(pow256, 9);
    }
    law_value_survives_le_bytes(account.nonce as nat, 8);
    law_value_survives_le_bytes(account.balance, 32);
}

/// Every 72 bytes are the byte form of the account that they hold.
pub proof fn law_bytes_survive_account(bytes: Seq<u8>)
    requires
        bytes.len() == ACCOUNT_BYTES,
    ensures
        account_of_bytes(bytes).fits(),
        account_bytes(account_of_bytes(bytes)) == bytes,
{
    let account = account_of_bytes(bytes);
    lemma_le_value_bound(bytes.subrange(0, 8));
    lemma_le_value_bound(bytes.subrange(8, 40));
    assert(pow256(8) == 0x1_0000_0000_0000_0000) by {
        reveal_with_fuel(pow256, 9);
    }
    law_le_bytes_survive_value(bytes.subrange(0, 8));
    law_le_bytes_survive_value(bytes.subrange(8, 40));
    assert(account_bytes(account) =~= bytes);
}

/// Writes out an account.
pub fn encode_account(state: &AccountState) -> (buf: [u8; ACCOUNT_BYTES])
    ensures
        buf@ == account_bytes(state@),
{
    let mut buf = [0u8; ACCOUNT_BYTES];
    let nonce = u64_to_le_bytes(state.nonce);
    let balance = state.balance.to_le_bytes();
    copy_into(&mut buf, 0, &nonce);
    copy_into(&mut buf, 8, &balance);
    copy_into(&mut buf, 40, &state.code_hash.0);
    assert(buf@ =~= account_bytes(state@));
    buf
}

/// Reads an account back. Any length but 72 bytes is an error.
pub fn decode_account<E>(bytes: &[u8]) -> (state: Result<AccountState, DbError<E>>)
    ensures
        state is Ok <==> bytes@.len() == ACCOUNT_BYTES,
        state matches Ok(account) ==> account@ == account_of_bytes(bytes@),
        state matches Err(error) ==> error == DbError::<E>::CorruptAccount(bytes@.len() as usize),
{
    if bytes.len() != ACCOUNT_BYTES {
        return Err(DbError::CorruptAccount(bytes.len()));
    }
    let nonce = u64_from_le_bytes(&bytes[0..8]);
    let balance = U256::from_le_slice(&bytes[8..40]);
    let mut code_hash = [0u8; 32];
    copy_into(&mut code_hash, 0, &bytes[40..72]);
    assert(code_hash@ =~= bytes@.subrange(40, 72));
    Ok(AccountState { nonce, balance, code_hash: B256(code_hash) })
}

/// Writes out the key of a storage slot.
pub fn encode_storage_key(addr: &Address, slot: &B256) -> (key: [u8; STORAGE_KEY_BYTES])
    ensures
        key@ == storage_key(addr@, slot@),
{
    let mut key = [0u8; STORAGE_KEY_BYTES];
    copy_into(&mut key, 0, &addr.0);
    copy_into(&mut key, 20, &slot.0);
    assert(key@ =~= storage_key(addr@, slot@));
    key
}

} // verus!
