//! Addresses, 32-byte words and 256-bit numbers.

use vstd::prelude::*;

use crate::bytes::{
    be_bytes, be_value, le_bytes, le_value, lemma_limbs_value, limbs_value, pow256,
};
use crate::outside;

verus! {

/// A 20-byte account address.
#[derive(Clone, Copy, Debug, PartialEq, Eq)]
pub struct Address(pub [u8; 20]);

impl View for Address {
    type V = Seq<u8>;

    open spec fn view(&self) -> Seq<u8> {
        self.0@
    }
}

/// A 32-byte word: a hash or a storage slot.
#[derive(Clone, Copy, Debug, PartialEq, Eq)]
pub struct B256(pub [u8; 32]);

impl View for B256 {
    type V = Seq<u8>;

    open spec fn view(&self) -> Seq<u8> {
        self.0@
    }
}

impl B256 {
    /// The word whose bytes are all zero.
    pub fn zero() -> (word: Self)
        ensures
            word@ == Seq::new(32, |i: int| 0u8),
    {
        let word = B256([0u8; 32]);
        assert(word@ =~= Seq::new(32, |i: int| 0u8));
        word
    }
}

/// An unsigned 256-bit number.
#[derive(Clone, Copy, Debug, Eq)]
pub struct U256 {
    limbs: [u64; 4],
}

impl View for U256 {
    type V = nat;

    closed spec fn view(&self) -> nat {
        limbs_value(self.limbs@)
    }
}

impl PartialEq for U256 {
    fn eq(&self, other: &Self) -> (r: bool) {
        self.limbs[0] == other.limbs[0] && self.limbs[1] == other.limbs[1] && self.limbs[2]
            == other.limbs[2] && self.limbs[3] == other.limbs[3]
    }
}

impl vstd::std_specs::cmp::PartialEqSpecImpl for U256 {
    open spec fn obeys_eq_spec() -> bool {
        true
    }

    open spec fn eq_spec(&self, other: &Self) -> bool {
        self@ == other@
    }
}

impl U256 {
    /// The number whose base-2^64 digits are the limbs, least significant
    /// limb first.
    pub fn from_limbs(limbs: [u64; 4]) -> (number: Self)
        ensures
            number@ == limbs_value(limbs@),
    {
        U256 { limbs }
    }

    /// The base-2^64 digits of the number, least significant limb first.
    pub fn into_limbs(self) -> (limbs: [u64; 4])
        ensures
            limbs_value(limbs@) == self@,
    {
        self.limbs
    }

    /// The number zero.
    pub fn zero() -> (number: Self)
        ensures
            number@ == 0,
    {
        U256 { limbs: [0, 0, 0, 0] }
    }

    /// The number `v`.
    pub fn from_u64(v: u64) -> (number: Self)
        ensures
            number@ == v,
    {
        U256 { limbs: [v, 0, 0, 0] }
    }

    /// The number `v`.
    pub fn from_u128(v: u128) -> (number: Self)
        ensures
            number@ == v,
    {
        let low: u64 = (v % 0x1_0000_0000_0000_0000) as u64;
        let high: u64 = (v / 0x1_0000_0000_0000_0000) as u64;
        U256 { limbs: [low, high, 0, 0] }
    }

    /// Whether the number is zero.
    pub fn is_zero(&self) -> (r: bool)
        ensures
            r == (self@ == 0),
    {
        self.limbs[0] == 0 && self.limbs[1] == 0 && self.limbs[2] == 0 && self.limbs[3] == 0
    }

    /// The sum modulo 2^256.
    pub fn wrapping_add(self, other: U256) -> (sum: Self)
        ensures
            sum@ == (self@ + other@) % pow256(32),
    {
        U256 { limbs: outside::u256_plus(self.limbs, other.limbs) }
    }

    /// The 32 bytes of the number, least significant byte first.
    pub fn to_le_bytes(&self) -> (out: [u8; 32])
        ensures
            out@ == le_bytes(self@, 32),
    {
        outside::u256_to_le_bytes(self.limbs)
    }

    /// The 32 bytes of the number, most significant byte first.
    pub fn to_be_bytes(&self) -> (out: [u8; 32])
        ensures
            out@ == be_bytes(self@, 32),
    {
        outside::u256_to_be_bytes(self.limbs)
    }

    /// The number that at most 32 bytes hold, least significant byte first.
    pub fn from_le_slice(bytes: &[u8]) -> (number: Self)
        requires
            bytes@.len() <= 32,
        ensures
            number@ == le_value(bytes@),
    {
        U256 { limbs: outside::u256_from_le_slice(bytes) }
    }

    /// The number that at most 32 bytes hold, most significant byte first.
    pub fn from_be_slice(bytes: &[u8]) -> (number: Self)
        requires
            bytes@.len() <= 32,
        ensures
            number@ == be_value(bytes@),
    {
        U256 { limbs: outside::u256_from_be_slice(bytes) }
    }
}

/// Every number of the type fits in 32 bytes.
pub proof fn lemma_u256_bound(number: U256)
    ensures
        number@ < pow256(32),
{
    lemma_limbs_value(number.limbs@, number.limbs@);
}

} // verus!
