//! Generated accounts and blocks to measure with.

use vstd::arithmetic::power::pow;
use vstd::prelude::*;

use crate::account::{AccountState, AccountView};
use crate::bytes::pow256;
use crate::number_laws::law_pow256_is_power;
use crate::outside;
use crate::outside::{seeded_triple, seeded_word};
use crate::primitives::{Address, B256, U256};

verus! {

/// The seed of the balance increments of a block.
pub const BLOCK_SEED: u64 = 42;

/// A generated account in the base state.
#[derive(Clone, Debug, PartialEq, Eq)]
pub struct Account {
    pub addr: Address,
    pub nonce: u64,
    pub balance: U256,
}

/// The state of one account before and after a block.
#[derive(Clone, Debug, PartialEq, Eq)]
pub struct AccountDelta {
    pub addr: Address,
    pub old: AccountState,
    pub new: AccountState,
}

/// Whether an account is made of a draw: its address, its nonce cut to 16
/// bits, and its balance.
pub open spec fn is_account_of_draw(account: Account, draw: ([u8; 20], u64, u128)) -> bool {
    &&& account.addr@ == draw.0@
    &&& account.nonce == draw.1 % 0x10000
    &&& account.balance@ == draw.2
}

/// Whether a delta takes an account to the next nonce and a balance increased
/// by the draw, with the zero code hash before and after.
pub open spec fn is_delta_of_draw(delta: AccountDelta, account: Account, draw: u64) -> bool {
    let code_hash = Seq::new(32, |i: int| 0u8);
    &&& delta.addr@ == account.addr@
    &&& delta.old@ == (AccountView { nonce: account.nonce, balance: account.balance@, code_hash })
    &&& delta.new@ == (AccountView {
        nonce: (account.nonce + 1) as u64,
        balance: (account.balance@ + draw as nat) % pow256(32),
        code_hash,
    })
}

/// Generates `n` accounts. Each is a fixed function of the seed and its index.
pub fn gen_accounts(n: usize, seed: u64) -> (accounts: Vec<Account>)
    ensures
        accounts@.len() == n,
        forall|i: int|
            0 <= i < n ==> is_account_of_draw(#[trigger] accounts@[i], seeded_triple(seed, i)),
{
    let draws = outside::draw_triples(seed, n);
    accounts_from_draws(draws.as_slice())
}

/// The accounts that the draws make, in order.
pub fn accounts_from_draws(draws: &[([u8; 20], u64, u128)]) -> (accounts: Vec<Account>)
    ensures
        accounts@.len() == draws@.len(),
        forall|i: int|
            0 <= i < draws@.len() ==> is_account_of_draw(#[trigger] accounts@[i], draws@[i]),
{
    let mut accounts: Vec<Account> = Vec::new();
    for i in 0..draws.len()
        invariant
            accounts@.len() == i,
            forall|j: int| 0 <= j < i ==> is_account_of_draw(#[trigger] accounts@[j], draws@[j]),
    {
        let (addr, word, balance) = draws[i];
        assert(word & 0xFFFF == word % 0x10000) by (bit_vector);
        accounts.push(
            Account {
                addr: Address(addr),
                nonce: word & 0xFFFF,
                balance: U256::from_u128(balance),
            },
        );
    }
    accounts
}

/// Generates a block that touches the first `n` accounts of the base: each
/// nonce goes up by one and each balance by a generated `u64`.
pub fn gen_block(base: &[Account], n: usize) -> (block: Vec<AccountDelta>)
    requires
        n <= base@.len(),
        forall|i: int| 0 <= i < n ==> (#[trigger] base@[i]).nonce < u64::MAX,
    ensures
        block@.len() == n,
        forall|i: int|
            0 <= i < n ==> is_delta_of_draw(
                #[trigger] block@[i],
                base@[i],
                seeded_word(BLOCK_SEED, i),
            ),
{
    let draws = outside::draw_words(BLOCK_SEED, n);
    block_from_draws(base, draws.as_slice())
}

/// The block that the draws make of as many first accounts of the base.
pub fn block_from_draws(base: &[Account], draws: &[u64]) -> (block: Vec<AccountDelta>)
    requires
        draws@.len() <= base@.len(),
        forall|i: int| 0 <= i < draws@.len() ==> (#[trigger] base@[i]).nonce < u64::MAX,
    ensures
        block@.len() == draws@.len(),
        forall|i: int|
            0 <= i < draws@.len() ==> is_delta_of_draw(#[trigger] block@[i], base@[i], draws@[i]),
{
    let mut block: Vec<AccountDelta> = Vec::new();
    for i in 0..draws.len()
        invariant
            draws@.len() <= base@.len(),
            forall|j: int| 0 <= j < draws@.len() ==> (#[trigger] base@[j]).nonce < u64::MAX,
            block@.len() == i,
            forall|j: int|
                0 <= j < i ==> is_delta_of_draw(#[trigger] block@[j], base@[j], draws@[j]),
    {
        let account = &base[i];
        assert(base@[i as int].nonce < u64::MAX);
        block.push(
            AccountDelta {
                addr: account.addr,
                old: AccountState {
                    nonce: account.nonce,
                    balance: account.balance,
                    code_hash: B256::zero(),
                },
                new: AccountState {
                    nonce: account.nonce + 1,
                    balance: account.balance.wrapping_add(U256::from_u64(draws[i])),
                    code_hash: B256::zero(),
                },
            },
        );
    }
    block
}

/// Each account has the whole address of its draw, the low 16 bits of its word
/// for nonce, and the whole of its last part for balance.
pub proof fn law_accounts_hold_their_draws(
    draws: &[([u8; 20], u64, u128)],
    made: Vec<Account>,
    n: usize,
    seed: u64,
    generated: Vec<Account>,
)
    requires
        call_ensures(accounts_from_draws, (draws,), made),
        call_ensures(gen_accounts, (n, seed), generated),
    ensures
        made@.len() == draws@.len(),
        forall|i: int|
            0 <= i < draws@.len() ==> {
                &&& (#[trigger] made@[i]).addr.0@ == draws@[i].0@
                &&& made@[i].nonce == draws@[i].1 % 0x10000
                &&& made@[i].balance@ == draws@[i].2
            },
        generated@.len() == n,
        forall|i: int|
            0 <= i < n ==> {
                &&& (#[trigger] generated@[i]).addr.0@ == seeded_triple(seed, i).0@
                &&& generated@[i].nonce == seeded_triple(seed, i).1 % 0x10000
                &&& generated@[i].balance@ == seeded_triple(seed, i).2
            },
{
    assert forall|i: int| 0 <= i < draws@.len() implies {
        &&& (#[trigger] made@[i]).addr.0@ == draws@[i].0@
        &&& made@[i].nonce == draws@[i].1 % 0x10000
        &&& made@[i].balance@ == draws@[i].2
    } by {
        assert(is_account_of_draw(made@[i], draws@[i]));
    }
    assert forall|i: int| 0 <= i < n implies {
        &&& (#[trigger] generated@[i]).addr.0@ == seeded_triple(seed, i).0@
        &&& generated@[i].nonce == seeded_triple(seed, i).1 % 0x10000
        &&& generated@[i].balance@ == seeded_triple(seed, i).2
    } by {
        assert(is_account_of_draw(generated@[i], seeded_triple(seed, i)));
    }
}

/// Each delta of a block keeps the address, takes nonce and balance of its
/// account as old, and puts the next nonce and the balance with the draw added.
/// The code hash is zero throughout.
pub proof fn law_block_deltas_hold_their_draws(
    base: &[Account],
    draws: &[u64],
    block: Vec<AccountDelta>,
)
    requires
        draws@.len() <= base@.len(),
        forall|i: int| 0 <= i < draws@.len() ==> (#[trigger] base@[i]).nonce < u64::MAX,
        call_ensures(block_from_draws, (base, draws), block),
    ensures
        block@.len() == draws@.len(),
        forall|i: int|
            0 <= i < draws@.len() ==> {
                &&& (#[trigger] block@[i]).addr.0@ == base@[i].addr.0@
                &&& block@[i].old.nonce == base@[i].nonce
                &&& block@[i].old.balance@ == base@[i].balance@
                &&& block@[i].new.nonce == base@[i].nonce + 1
                &&& block@[i].new.balance@ == (base@[i].balance@ + draws@[i]) as int % pow(256, 32)
                &&& forall|k: int|
                    0 <= k < 32 ==> #[trigger] block@[i].old.code_hash.0@[k] == 0
                        && block@[i].new.code_hash.0@[k] == 0
            },
{
    law_pow256_is_power(32);
    assert forall|i: int| 0 <= i < draws@.len() implies {
        &&& (#[trigger] block@[i]).addr.0@ == base@[i].addr.0@
        &&& block@[i].old.nonce == base@[i].nonce
        &&& block@[i].old.balance@ == base@[i].balance@
        &&& block@[i].new.nonce == base@[i].nonce + 1
        &&& block@[i].new.balance@ == (base@[i].balance@ + draws@[i]) as int % pow(256, 32)
        &&& forall|k: int|
            0 <= k < 32 ==> #[trigger] block@[i].old.code_hash.0@[k] == 0
                && block@[i].new.code_hash.0@[k] == 0
    } by {
        let delta = block@[i];
        assert(base@[i].nonce < u64::MAX);
        assert(is_delta_of_draw(delta, base@[i], draws@[i]));
        assert(delta.old@.code_hash == delta.old.code_hash.0@);
        assert(delta.new@.code_hash == delta.new.code_hash.0@);
        assert(delta.old@.nonce == delta.old.nonce);
        assert(delta.new@.nonce == delta.new.nonce);
        assert(delta.old@.balance == delta.old.balance@);
        assert(delta.new@.balance == delta.new.balance@);
    }
}

/// A generated block is the block of the words that seed 42 yields.
pub proof fn law_generated_block_holds_seeded_words(
    base: &[Account],
    n: usize,
    block: Vec<AccountDelta>,
    draws: &[u64],
    made: Vec<AccountDelta>,
)
    requires
        n <= base@.len(),
        forall|i: int| 0 <= i < n ==> (#[trigger] base@[i]).nonce < u64::MAX,
        draws@ == Seq::new(n as nat, |i: int| seeded_word(42, i)),
        call_ensures(gen_block, (base, n), block),
        call_ensures(block_from_draws, (base, draws), made),
    ensures
        block@.len() == n,
        made@.len() == n,
        forall|i: int|
            0 <= i < n ==> {
                &&& (#[trigger] block@[i]).addr.0@ == made@[i].addr.0@
                &&& block@[i].old.nonce == made@[i].old.nonce
                &&& block@[i].old.balance@ == made@[i].old.balance@
                &&& block@[i].old.code_hash.0@ == made@[i].old.code_hash.0@
                &&& block@[i].new.nonce == made@[i].new.nonce
                &&& block@[i].new.balance@ == made@[i].new.balance@
                &&& block@[i].new.code_hash.0@ == made@[i].new.code_hash.0@
            },
{
    assert forall|i: int| 0 <= i < n implies {
        &&& (#[trigger] block@[i]).addr.0@ == made@[i].addr.0@
        &&& block@[i].old.nonce == made@[i].old.nonce
        &&& block@[i].old.balance@ == made@[i].old.balance@
        &&& block@[i].old.code_hash.0@ == made@[i].old.code_hash.0@
        &&& block@[i].new.nonce == made@[i].new.nonce
        &&& block@[i].new.balance@ == made@[i].new.balance@
        &&& block@[i].new.code_hash.0@ == made@[i].new.code_hash.0@
    } by {
        assert(is_delta_of_draw(block@[i], base@[i], seeded_word(42, i)));
        assert(is_delta_of_draw(made@[i], base@[i], draws@[i]));
        let (a, b) = (block@[i], made@[i]);
        assert(a.old@ == b.old@ && a.new@ == b.new@);
        assert(a.old@.code_hash == a.old.code_hash.0@ && b.old@.code_hash == b.old.code_hash.0@);
        assert(a.new@.code_hash == a.new.code_hash.0@ && b.new@.code_hash == b.new.code_hash.0@);
    }
}

} // verus!
