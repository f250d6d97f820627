//! The accumulated hash over all entries.

use vstd::prelude::*;

use crate::entry::EntryHash;
use crate::lattice::{
    add_lanes, bytes_from_lanes, bytes_of_lanes, lanes_from_bytes, lanes_of_bytes, lattice_diff,
    lattice_sum, lattice_zero, subtract_lanes, WORLD_HASH_BYTES, WORLD_HASH_LEN,
};
use crate::outside;
use crate::outside::blake3_digest;
use crate::primitives::B256;

verus! {

/// The accumulated hash over all entries: the sum of their entry hashes, lane
/// by lane, with wrapping `u16` addition.
#[derive(Debug, PartialEq, Eq)]
pub struct WorldHash([u16; WORLD_HASH_LEN]);

impl View for WorldHash {
    type V = Seq<u16>;

    closed spec fn view(&self) -> Seq<u16> {
        self.0@
    }
}

/// A world hash has 1024 lanes.
pub broadcast proof fn lemma_world_hash_len(world: WorldHash)
    ensures
        #[trigger] world@.len() == WORLD_HASH_LEN,
{
}

/// The state root of a world hash: the BLAKE3 digest of its bytes.
pub open spec fn root_of_lanes(lanes: Seq<u16>) -> Seq<u8> {
    blake3_digest(bytes_of_lanes(lanes))
}

impl Clone for WorldHash {
    fn clone(&self) -> (copy: Self)
        ensures
            copy@ == self@,
    {
        WorldHash(self.0)
    }
}

impl Default for WorldHash {
    fn default() -> (world: Self)
        ensures
            world@ == lattice_zero(),
    {
        let world = WorldHash([0u16; WORLD_HASH_LEN]);
        assert(world@ =~= lattice_zero());
        world
    }
}

impl WorldHash {
    /// The hash of no entries: zero.
    pub fn new() -> (world: Self)
        ensures
            world@ == lattice_zero(),
    {
        Self::default()
    }

    /// Adds the hash of an entry.
    pub fn add(&mut self, entry: &EntryHash)
        ensures
            final(self)@ == lattice_sum(old(self)@, entry@),
    {
        add_lanes(&mut self.0, entry.as_elements());
    }

    /// Takes the hash of an entry out.
    pub fn remove(&mut self, entry: &EntryHash)
        ensures
            final(self)@ == lattice_diff(old(self)@, entry@),
    {
        subtract_lanes(&mut self.0, entry.as_elements());
    }

    /// Takes the hash `old_entry` out and adds the hash `new_entry`.
    pub fn update(&mut self, old_entry: &EntryHash, new_entry: &EntryHash)
        ensures
            final(self)@ == lattice_sum(lattice_diff(old(self)@, old_entry@), new_entry@),
    {
        let taken = old_entry.as_elements();
        let given = new_entry.as_elements();
        let ghost goal = lattice_sum(lattice_diff(old(self)@, old_entry@), new_entry@);
        for i in 0..WORLD_HASH_LEN
            invariant
                taken@ == old_entry@,
                given@ == new_entry@,
                goal == lattice_sum(lattice_diff(old(self)@, old_entry@), new_entry@),
                forall|j: int| 0 <= j < i ==> self.0@[j] == goal[j],
                forall|j: int| i <= j < WORLD_HASH_LEN ==> self.0@[j] == old(self)@[j],
        {
            self.0[i] = self.0[i].wrapping_sub(taken[i]).wrapping_add(given[i]);
        }
        assert(self@ =~= goal);
    }

    /// Adds another world hash.
    pub fn merge(&mut self, other: &WorldHash)
        ensures
            final(self)@ == lattice_sum(old(self)@, other@),
    {
        add_lanes(&mut self.0, &other.0);
    }

    /// Takes another world hash out.
    pub fn subtract(&mut self, other: &WorldHash)
        ensures
            final(self)@ == lattice_diff(old(self)@, other@),
    {
        subtract_lanes(&mut self.0, &other.0);
    }

    /// The 32-byte state root.
    pub fn state_root(&self) -> (root: B256)
        ensures
            root@ == root_of_lanes(self@),
    {
        let bytes = self.to_bytes();
        B256(outside::blake3_hash(&bytes))
    }

    /// Writes out the 2048 bytes of the world hash.
    pub fn to_bytes(&self) -> (bytes: [u8; WORLD_HASH_BYTES])
        ensures
            bytes@ == bytes_of_lanes(self@),
    {
        bytes_from_lanes(&self.0)
    }

    /// Reads a world hash back from its 2048 bytes.
    pub fn from_bytes(bytes: &[u8; WORLD_HASH_BYTES]) -> (world: Self)
        ensures
            world@ == lanes_of_bytes(bytes@),
    {
        WorldHash(lanes_from_bytes(bytes))
    }
}

} // verus!
