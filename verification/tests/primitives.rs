use lthash_statedb::account::{decode_account, encode_account, encode_storage_key};
use lthash_statedb::{AccountState, Address, DbError, B256, U256};

const LIMBS: [u64; 4] =
    [0x0011_2233_4455_6677, 0x8899_aabb_ccdd_eeff, 0x0123_4567_89ab_cdef, 0xfedc_ba98_7654_3210];

#[test]
fn number_bytes_agree_with_alloy() {
    let number = U256::from_limbs(LIMBS);
    let other = alloy_primitives::U256::from_limbs(LIMBS);
    assert_eq!(number.to_le_bytes(), other.to_le_bytes::<32>());
    assert_eq!(number.to_be_bytes(), other.to_be_bytes::<32>());
    assert_eq!(number.to_le_bytes()[0], 0x77);
    assert_eq!(number.to_be_bytes()[0], 0xfe);
}

#[test]
fn number_survives_its_bytes() {
    let number = U256::from_limbs(LIMBS);
    assert_eq!(U256::from_le_slice(&number.to_le_bytes()), number);
    assert_eq!(U256::from_be_slice(&number.to_be_bytes()), number);
    assert_eq!(U256::from_le_slice(&[2, 1]), U256::from_u64(0x0102));
    assert_eq!(U256::from_be_slice(&[2, 1]), U256::from_u64(0x0201));
    assert_eq!(U256::from_be_slice(&[]), U256::zero());
}

#[test]
fn number_limbs() {
    assert_eq!(U256::from_u128(u128::MAX).into_limbs(), [u64::MAX, u64::MAX, 0, 0]);
    assert_eq!(U256::from_u128(1 << 64).into_limbs(), [0, 1, 0, 0]);
    assert_eq!(U256::from_u64(5).into_limbs(), [5, 0, 0, 0]);
    assert!(U256::zero().is_zero());
    assert!(!U256::from_limbs([0, 0, 0, 1]).is_zero());
    assert!(U256::from_u64(1) != U256::from_limbs([1, 0, 0, 1]));
}

#[test]
fn number_sum_carries_and_wraps() {
    let sum = U256::from_u64(u64::MAX).wrapping_add(U256::from_u64(2));
    assert_eq!(sum, U256::from_limbs([1, 1, 0, 0]));
    let top = U256::from_limbs([u64::MAX; 4]);
    assert_eq!(top.wrapping_add(U256::from_u64(6)), U256::from_u64(5));
}

#[test]
fn account_layout() {
    let account = AccountState {
        nonce: 0x0102,
        balance: U256::from_u64(0x0304),
        code_hash: B256([0xaa; 32]),
    };
    let mut expected = [0u8; 72];
    expected[0] = 0x02;
    expected[1] = 0x01;
    expected[8] = 0x04;
    expected[9] = 0x03;
    for i in 40..72 {
        expected[i] = 0xaa;
    }
    assert_eq!(encode_account(&account), expected);
}

#[test]
fn account_survives_its_bytes() {
    let account = AccountState {
        nonce: u64::MAX - 5,
        balance: U256::from_limbs(LIMBS),
        code_hash: B256([0x17; 32]),
    };
    let bytes = encode_account(&account);
    assert_eq!(decode_account::<String>(&bytes), Ok(account));
}

#[test]
fn bytes_survive_the_account() {
    let mut bytes = [0u8; 72];
    for i in 0..72 {
        bytes[i] = (i * 3 + 1) as u8;
    }
    let account = decode_account::<String>(&bytes).unwrap();
    assert_eq!(encode_account(&account), bytes);
}

#[test]
fn account_of_wrong_length_is_corrupt() {
    assert_eq!(decode_account::<String>(&[0u8; 71]), Err(DbError::CorruptAccount(71)));
    assert_eq!(decode_account::<String>(&[0u8; 73]), Err(DbError::CorruptAccount(73)));
    assert_eq!(decode_account::<String>(&[]), Err(DbError::CorruptAccount(0)));
}

#[test]
fn storage_key_layout() {
    let key = encode_storage_key(&Address([1; 20]), &B256([2; 32]));
    assert_eq!(&key[..20], &[1u8; 20]);
    assert_eq!(&key[20..], &[2u8; 32]);
}

#[test]
fn storage_keys_are_distinct() {
    let (a1, a2) = (Address([1; 20]), Address([2; 20]));
    let (s1, s2) = (B256([1; 32]), B256([2; 32]));
    let key = encode_storage_key(&a1, &s1);
    assert_ne!(key, encode_storage_key(&a2, &s1));
    assert_ne!(key, encode_storage_key(&a1, &s2));
}
