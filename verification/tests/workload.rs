use lthash_statedb::workload::{accounts_from_draws, block_from_draws};
use lthash_statedb::{gen_accounts, gen_block, Account, AccountState, Address, B256, U256};
use rand::rngs::StdRng;
use rand::{Rng, SeedableRng};

#[test]
fn accounts_come_from_the_seeded_generator() {
    let accounts = gen_accounts(5, 1);
    let mut rng = StdRng::seed_from_u64(1);
    let expected: Vec<Account> = (0..5)
        .map(|_| Account {
            addr: Address(rng.gen::<[u8; 20]>()),
            nonce: rng.gen::<u64>() & 0xFFFF,
            balance: U256::from_u128(rng.gen::<u128>()),
        })
        .collect();
    assert_eq!(accounts, expected);
}

#[test]
fn accounts_are_deterministic_and_extend() {
    let few = gen_accounts(3, 9);
    let many = gen_accounts(8, 9);
    assert_eq!(few, gen_accounts(3, 9));
    assert_eq!(few[..], many[..3]);
    assert_ne!(few, gen_accounts(3, 10));
    assert!(gen_accounts(0, 9).is_empty());
}

#[test]
fn accounts_cut_the_nonce_to_sixteen_bits() {
    let accounts = accounts_from_draws(&[([5; 20], 0xabcd_1234, 6)]);
    assert_eq!(
        accounts,
        vec![Account { addr: Address([5; 20]), nonce: 0x1234, balance: U256::from_u64(6) }]
    );
}

#[test]
fn block_increments_come_from_the_seeded_generator() {
    let base = gen_accounts(4, 2);
    let block = gen_block(&base, 3);
    let mut rng = StdRng::seed_from_u64(42);
    assert_eq!(block.len(), 3);
    for i in 0..3 {
        let word = rng.gen::<u64>();
        assert_eq!(block[i].addr, base[i].addr);
        assert_eq!(block[i].old.nonce, base[i].nonce);
        assert_eq!(block[i].old.balance, base[i].balance);
        assert_eq!(block[i].new.nonce, base[i].nonce + 1);
        assert_eq!(block[i].new.balance, base[i].balance.wrapping_add(U256::from_u64(word)));
    }
}

#[test]
fn block_deltas_of_given_draws() {
    let base = vec![
        Account { addr: Address([1; 20]), nonce: 7, balance: U256::from_u64(10) },
        Account { addr: Address([2; 20]), nonce: 8, balance: U256::from_limbs([u64::MAX; 4]) },
        Account { addr: Address([3; 20]), nonce: 9, balance: U256::zero() },
    ];
    let block = block_from_draws(&base, &[5, 6]);
    let state = |nonce: u64, balance: u64| AccountState {
        nonce,
        balance: U256::from_u64(balance),
        code_hash: B256::zero(),
    };
    assert_eq!(block.len(), 2);
    assert_eq!((block[0].old, block[0].new), (state(7, 10), state(8, 15)));
    assert_eq!(block[1].addr, Address([2; 20]));
    assert_eq!(block[1].new, state(9, 5));
}
