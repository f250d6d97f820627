//! What the operations on numbers, accounts and keys give: each byte of a
//! result, in terms of the inputs alone.
//!
//! The digit of `v` at place `k` in base 256 is `v / 256^k % 256`.

use vstd::arithmetic::div_mod::lemma_div_denominator;
use vstd::arithmetic::power::{lemma_pow0, lemma_pow_positive, pow};
use vstd::prelude::*;

use crate::account::{
    account_bytes, account_of_bytes, decode_account, encode_account, encode_storage_key,
    AccountState, AccountView,
};
use crate::bytes::{
    be_bytes, be_value, law_be_bytes_survive_value, law_le_bytes_survive_value, le_bytes, le_value,
    lemma_le_bytes_len, lemma_le_value_bound, pow256,
};
use crate::error::DbError;
use crate::primitives::{lemma_u256_bound, Address, B256, U256};

verus! {

/// The count of byte strings of length `n` is 256 to the power of `n`.
pub proof fn law_pow256_is_power(n: nat)
    ensures
        pow256(n) == pow(256, n),
    decreases n,
{
    reveal(pow);
    if n > 0 {
        law_pow256_is_power((n - 1) as nat);
    }
}

/// The bytes of a number, least significant byte first, are its digits in base
/// 256.
pub proof fn law_le_bytes_are_digits(v: nat, n: nat, k: int)
    requires
        0 <= k < n,
    ensures
        le_bytes(v, n).len() == n,
        le_bytes(v, n)[k] == (v as int / pow(256, k as nat)) % 256,
    decreases n,
{
    lemma_le_bytes_len(v, n);
    if k == 0 {
        lemma_pow0(256);
    } else {
        let m = (n - 1) as nat;
        law_le_bytes_are_digits(v / 0x100, m, k - 1);
        assert(le_bytes(v, n)[k] == le_bytes(v / 0x100, m)[k - 1]);
        lemma_pow_positive(256, (k - 1) as nat);
        lemma_div_denominator(v as int, 256, pow(256, (k - 1) as nat));
        reveal(pow);
        assert(pow(256, k as nat) == 256 * pow(256, (k - 1) as nat));
    }
}

/// The bytes of a number, most significant byte first, are its digits in base
/// 256 in reverse.
pub proof fn law_be_bytes_are_digits(v: nat, n: nat, k: int)
    requires
        0 <= k < n,
    ensures
        be_bytes(v, n).len() == n,
        be_bytes(v, n)[k] == (v as int / pow(256, (n - 1 - k) as nat)) % 256,
{
    law_le_bytes_are_digits(v, n, n - 1 - k);
    assert(be_bytes(v, n)[k] == le_bytes(v, n)[n - 1 - k]);
}

/// The number that bytes hold, least significant byte first, has the bytes for
/// digits and no further ones.
pub proof fn law_le_value_has_digits(s: Seq<u8>)
    ensures
        le_value(s) < pow(256, s.len()),
        forall|k: int|
            0 <= k < s.len() ==> (le_value(s) as int / pow(256, k as nat)) % 256
                == #[trigger] s[k],
{
    lemma_le_value_bound(s);
    law_pow256_is_power(s.len());
    law_le_bytes_survive_value(s);
    assert forall|k: int| 0 <= k < s.len() implies (le_value(s) as int / pow(256, k as nat)) % 256
        == #[trigger] s[k] by {
        law_le_bytes_are_digits(le_value(s), s.len(), k);
    }
}

/// The number that bytes hold, most significant byte first, has the bytes for
/// digits, the last byte first, and no further ones.
pub proof fn law_be_value_has_digits(s: Seq<u8>)
    ensures
        be_value(s) < pow(256, s.len()),
        forall|k: int|
            0 <= k < s.len() ==> (be_value(s) as int / pow(256, (s.len() - 1 - k) as nat)) % 256
                == #[trigger] s[k],
{
    lemma_le_value_bound(s.reverse());
    law_pow256_is_power(s.len());
    law_be_bytes_survive_value(s);
    assert forall|k: int| 0 <= k < s.len() implies (be_value(s) as int / pow(
        256,
        (s.len() - 1 - k) as nat,
    )) % 256 == #[trigger] s[k] by {
        law_be_bytes_are_digits(be_value(s), s.len(), k);
    }
}

/// A number is what its four limbs say as digits in base 2^64, and it comes
/// apart into the limbs that it was made of.
pub proof fn law_number_is_its_limbs(
    limbs: [u64; 4],
    number: U256,
    other_limbs: [u64; 4],
    other: U256,
)
    requires
        call_ensures(U256::from_limbs, (limbs,), number),
        call_ensures(U256::into_limbs, (other,), other_limbs),
    ensures
        number@ == limbs@[0] + 0x1_0000_0000_0000_0000 * limbs@[1]
            + 0x1_0000_0000_0000_0000_0000_0000_0000_0000 * limbs@[2]
            + 0x1_0000_0000_0000_0000_0000_0000_0000_0000_0000_0000_0000_0000 * limbs@[3],
        other@ == other_limbs@[0] + 0x1_0000_0000_0000_0000 * other_limbs@[1]
            + 0x1_0000_0000_0000_0000_0000_0000_0000_0000 * other_limbs@[2]
            + 0x1_0000_0000_0000_0000_0000_0000_0000_0000_0000_0000_0000_0000 * other_limbs@[3],
        other == number ==> other_limbs@ == limbs@,
{
    crate::bytes::lemma_limbs_value(limbs@, other_limbs@);
}

/// The small numbers are themselves, and only zero is zero.
pub proof fn law_small_numbers(
    v: u64,
    w: u128,
    zero: U256,
    of_v: U256,
    of_w: U256,
    number: U256,
    answer: bool,
)
    requires
        call_ensures(U256::zero, (), zero),
        call_ensures(U256::from_u64, (v,), of_v),
        call_ensures(U256::from_u128, (w,), of_w),
        call_ensures(U256::is_zero, (&number,), answer),
    ensures
        zero@ == 0,
        of_v@ == v,
        of_w@ == w,
        answer <==> number@ == 0,
{
}

/// Two numbers compare equal if and only if they are the same number.
pub proof fn law_equality_is_of_whole_numbers(a: U256, b: U256, answer: bool)
    requires
        call_ensures(<U256 as PartialEq>::eq, (&a, &b), answer),
    ensures
        answer <==> a@ == b@,
{
}

/// Every number is below 2^256, and a sum is the sum of the numbers, less 2^256
/// if it is not below.
pub proof fn law_sum_wraps(a: U256, b: U256, sum: U256)
    requires
        call_ensures(U256::wrapping_add, (a, b), sum),
    ensures
        a@ < pow(256, 32),
        a@ + b@ < pow(256, 32) ==> sum@ == a@ + b@,
        a@ + b@ >= pow(256, 32) ==> sum@ == a@ + b@ - pow(256, 32),
{
    lemma_u256_bound(a);
    lemma_u256_bound(b);
    law_pow256_is_power(32);
    let (total, bound) = ((a@ + b@) as int, pow(256, 32));
    if total < bound {
        vstd::arithmetic::div_mod::lemma_small_mod(total as nat, bound as nat);
    } else {
        vstd::arithmetic::div_mod::lemma_small_mod((total - bound) as nat, bound as nat);
        vstd::arithmetic::div_mod::lemma_mod_sub_multiples_vanish(total, bound);
    }
}

/// The two byte forms of a number hold its digits in base 256, from the least
/// and from the most significant one on.
pub proof fn law_number_bytes_are_digits(number: U256, le: [u8; 32], be: [u8; 32])
    requires
        call_ensures(U256::to_le_bytes, (&number,), le),
        call_ensures(U256::to_be_bytes, (&number,), be),
    ensures
        forall|k: int|
            0 <= k < 32 ==> #[trigger] le@[k] == (number@ as int / pow(256, k as nat)) % 256,
        forall|k: int|
            0 <= k < 32 ==> #[trigger] be@[k] == (number@ as int / pow(256, (31 - k) as nat)) % 256,
{
    assert forall|k: int| 0 <= k < 32 implies #[trigger] le@[k] == (number@ as int / pow(
        256,
        k as nat,
    )) % 256 by {
        law_le_bytes_are_digits(number@, 32, k);
    }
    assert forall|k: int| 0 <= k < 32 implies #[trigger] be@[k] == (number@ as int / pow(
        256,
        (31 - k) as nat,
    )) % 256 by {
        law_be_bytes_are_digits(number@, 32, k);
    }
}

/// The number read from bytes has the bytes for digits, from the first or from
/// the last one on, and no further digits.
pub proof fn law_number_of_bytes_has_digits(bytes: &[u8], le: U256, be: U256)
    requires
        bytes@.len() <= 32,
        call_ensures(U256::from_le_slice, (bytes,), le),
        call_ensures(U256::from_be_slice, (bytes,), be),
    ensures
        le@ < pow(256, bytes@.len()),
        be@ < pow(256, bytes@.len()),
        forall|k: int|
            0 <= k < bytes@.len() ==> (le@ as int / pow(256, k as nat)) % 256 == #[trigger] bytes@[k],
        forall|k: int|
            0 <= k < bytes@.len() ==> (be@ as int / pow(256, (bytes@.len() - 1 - k) as nat)) % 256
                == #[trigger] bytes@[k],
{
    law_le_value_has_digits(bytes@);
    law_be_value_has_digits(bytes@);
}

/// The byte form of an account holds the digits of the nonce, those of the
/// balance, and the code hash.
pub proof fn law_account_bytes_hold_every_field(account: AccountView)
    requires
        account.code_hash.len() == 32,
    ensures
        account_bytes(account).len() == 72,
        forall|k: int|
            0 <= k < 8 ==> #[trigger] account_bytes(account)[k] == (account.nonce as int / pow(
                256,
                k as nat,
            )) % 256,
        forall|k: int|
            8 <= k < 40 ==> #[trigger] account_bytes(account)[k] == (account.balance as int / pow(
                256,
                (k - 8) as nat,
            )) % 256,
        forall|k: int|
            40 <= k < 72 ==> #[trigger] account_bytes(account)[k] == account.code_hash[k - 40],
{
    let bytes = account_bytes(account);
    lemma_le_bytes_len(account.nonce as nat, 8);
    lemma_le_bytes_len(account.balance, 32);
    assert forall|k: int| 0 <= k < 8 implies #[trigger] bytes[k] == (account.nonce as int / pow(
        256,
        k as nat,
    )) % 256 by {
        law_le_bytes_are_digits(account.nonce as nat, 8, k);
    }
    assert forall|k: int| 8 <= k < 40 implies #[trigger] bytes[k] == (account.balance as int / pow(
        256,
        (k - 8) as nat,
    )) % 256 by {
        law_le_bytes_are_digits(account.balance, 32, k - 8);
    }
}

/// Writing out an account gives the digits of its nonce, those of its balance,
/// and its code hash.
pub proof fn law_encoded_account(account: AccountState, buf: [u8; 72])
    requires
        call_ensures(encode_account, (&account,), buf),
    ensures
        forall|k: int|
            0 <= k < 8 ==> #[trigger] buf@[k] == (account.nonce as int / pow(256, k as nat)) % 256,
        forall|k: int|
            8 <= k < 40 ==> #[trigger] buf@[k] == (account.balance@ as int / pow(
                256,
                (k - 8) as nat,
            )) % 256,
        forall|k: int| 40 <= k < 72 ==> #[trigger] buf@[k] == account.code_hash.0@[k - 40],
{
    law_account_bytes_hold_every_field(account@);
}

/// Reading an account succeeds on 72 bytes alone, and gives the account whose
/// digits and code hash they are. Otherwise the error names the length.
pub proof fn law_decoded_account<E>(bytes: &[u8], out: Result<AccountState, DbError<E>>)
    requires
        call_ensures(decode_account::<E>, (bytes,), out),
    ensures
        bytes@.len() != 72 ==> out == Err::<AccountState, _>(
            DbError::<E>::CorruptAccount(bytes@.len() as usize),
        ),
        bytes@.len() == 72 ==> {
            &&& out is Ok
            &&& forall|k: int|
                0 <= k < 8 ==> (out->Ok_0.nonce as int / pow(256, k as nat)) % 256
                    == #[trigger] bytes@[k]
            &&& forall|k: int|
                8 <= k < 40 ==> (out->Ok_0.balance@ as int / pow(256, (k - 8) as nat)) % 256
                    == #[trigger] bytes@[k]
            &&& forall|k: int| 40 <= k < 72 ==> out->Ok_0.code_hash.0@[k - 40] == #[trigger] bytes@[k]
        },
{
    if bytes@.len() == 72 {
        law_bytes_of_account_view(bytes@);
    }
}

/// The account that 72 bytes hold has their digits and their code hash.
pub proof fn law_bytes_of_account_view(bytes: Seq<u8>)
    requires
        bytes.len() == 72,
    ensures
        forall|k: int|
            0 <= k < 8 ==> (account_of_bytes(bytes).nonce as int / pow(256, k as nat)) % 256
                == #[trigger] bytes[k],
        forall|k: int|
            8 <= k < 40 ==> (account_of_bytes(bytes).balance as int / pow(256, (k - 8) as nat)) % 256
                == #[trigger] bytes[k],
        account_of_bytes(bytes).code_hash.len() == 32,
        forall|k: int|
            40 <= k < 72 ==> account_of_bytes(bytes).code_hash[k - 40] == #[trigger] bytes[k],
{
    crate::account::law_bytes_survive_account(bytes);
    law_account_bytes_hold_every_field(account_of_bytes(bytes));
}

/// The key of a slot is the address and then the slot, each byte of both.
pub proof fn law_encoded_storage_key(addr: Address, slot: B256, key: [u8; 52])
    requires
        call_ensures(encode_storage_key, (&addr, &slot), key),
    ensures
        forall|k: int| 0 <= k < 20 ==> #[trigger] key@[k] == addr.0@[k],
        forall|k: int| 20 <= k < 52 ==> #[trigger] key@[k] == slot.0@[k - 20],
{
}

} // verus!
