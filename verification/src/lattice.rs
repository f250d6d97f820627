//! Vectors of 1024 lanes of 16 bits with lane-wise wrapping arithmetic, and
//! their little-endian byte form.

use vstd::prelude::*;

verus! {

/// Size of a lattice vector in bytes.
pub const WORLD_HASH_BYTES: usize = 2048;

/// Number of `u16` lanes of a lattice vector.
pub const WORLD_HASH_LEN: usize = WORLD_HASH_BYTES / 2;

/// The vector whose lanes are all zero.
pub open spec fn lattice_zero() -> Seq<u16> {
    Seq::new(WORLD_HASH_LEN as nat, |i: int| 0u16)
}

/// Lane-wise sum modulo 2^16.
pub open spec fn lattice_sum(a: Seq<u16>, b: Seq<u16>) -> Seq<u16> {
    Seq::new(WORLD_HASH_LEN as nat, |i: int| ((a[i] + b[i]) % 0x10000) as u16)
}

/// Lane-wise difference modulo 2^16.
pub open spec fn lattice_diff(a: Seq<u16>, b: Seq<u16>) -> Seq<u16> {
    Seq::new(WORLD_HASH_LEN as nat, |i: int| ((a[i] - b[i]) % 0x10000) as u16)
}

/// The lanes that 2048 bytes hold, each lane in little-endian order.
pub open spec fn lanes_of_bytes(bytes: Seq<u8>) -> Seq<u16> {
    Seq::new(WORLD_HASH_LEN as nat, |i: int| (bytes[2 * i] + 0x100 * bytes[2 * i + 1]) as u16)
}

/// The 2048 bytes that hold the lanes, each lane in little-endian order.
pub open spec fn bytes_of_lanes(lanes: Seq<u16>) -> Seq<u8> {
    Seq::new(
        WORLD_HASH_BYTES as nat,
        |j: int|
            if j % 2 == 0 {
                (lanes[j / 2] % 0x100) as u8
            } else {
                (lanes[j / 2] / 0x100) as u8
            },
    )
}

/// The order of two summands does not matter.
pub proof fn law_sum_commutes(a: Seq<u16>, b: Seq<u16>)
    ensures
        lattice_sum(a, b) == lattice_sum(b, a),
{
    assert(lattice_sum(a, b) =~= lattice_sum(b, a));
}

/// Reducing a term modulo 2^16 does not change a sum or difference modulo 2^16.
pub proof fn lemma_lane_absorbs(x: int, y: int)
    ensures
        ((x % 0x10000) + y) % 0x10000 == (x + y) % 0x10000,
        ((x % 0x10000) - y) % 0x10000 == (x - y) % 0x10000,
{
}

/// The bracketing of three summands does not matter.
pub proof fn law_sum_associates(a: Seq<u16>, b: Seq<u16>, c: Seq<u16>)
    ensures
        lattice_sum(lattice_sum(a, b), c) == lattice_sum(a, lattice_sum(b, c)),
{
    let left = lattice_sum(lattice_sum(a, b), c);
    let right = lattice_sum(a, lattice_sum(b, c));
    assert forall|i: int| 0 <= i < WORLD_HASH_LEN implies left[i] == right[i] by {
        lemma_lane_absorbs(a[i] + b[i], c[i] as int);
        lemma_lane_absorbs(b[i] + c[i], a[i] as int);
    }
    assert(left =~= right);
}

/// Zero is the neutral element of the sum.
pub proof fn law_zero_is_neutral(a: Seq<u16>)
    requires
        a.len() == WORLD_HASH_LEN,
    ensures
        lattice_sum(a, lattice_zero()) == a,
        lattice_sum(lattice_zero(), a) == a,
        lattice_diff(a, lattice_zero()) == a,
        lattice_diff(a, a) == lattice_zero(),
{
    assert(lattice_sum(a, lattice_zero()) =~= a);
    assert(lattice_sum(lattice_zero(), a) =~= a);
    assert(lattice_diff(a, lattice_zero()) =~= a);
    assert(lattice_diff(a, a) =~= lattice_zero());
}

/// Sum and difference undo each other.
pub proof fn law_sum_and_diff_cancel(a: Seq<u16>, b: Seq<u16>)
    requires
        a.len() == WORLD_HASH_LEN,
    ensures
        lattice_diff(lattice_sum(a, b), b) == a,
        lattice_sum(lattice_diff(a, b), b) == a,
{
    assert(lattice_diff(lattice_sum(a, b), b) =~= a);
    assert(lattice_sum(lattice_diff(a, b), b) =~= a);
}

/// A vector can join a sum before or after another one is taken out of it.
pub proof fn law_sum_and_diff_exchange(a: Seq<u16>, b: Seq<u16>, c: Seq<u16>)
    ensures
        lattice_sum(lattice_diff(a, b), c) == lattice_diff(lattice_sum(a, c), b),
        lattice_sum(lattice_diff(a, b), c) == lattice_sum(a, lattice_diff(c, b)),
{
    let first = lattice_sum(lattice_diff(a, b), c);
    let second = lattice_diff(lattice_sum(a, c), b);
    let third = lattice_sum(a, lattice_diff(c, b));
    assert forall|i: int| 0 <= i < WORLD_HASH_LEN implies first[i] == second[i] && first[i]
        == third[i] by {
        lemma_lane_absorbs(a[i] - b[i], c[i] as int);
        lemma_lane_absorbs(a[i] + c[i], b[i] as int);
        lemma_lane_absorbs(c[i] - b[i], a[i] as int);
        assert(a[i] - b[i] + c[i] == a[i] + c[i] - b[i]);
        assert(a[i] - b[i] + c[i] == c[i] - b[i] + a[i]);
    }
    assert(first =~= second);
    assert(first =~= third);
}

/// A difference and its opposite cancel.
pub proof fn law_opposite_diffs_cancel(a: Seq<u16>, b: Seq<u16>)
    ensures
        lattice_sum(lattice_diff(a, b), lattice_diff(b, a)) == lattice_zero(),
{
    let sum = lattice_sum(lattice_diff(a, b), lattice_diff(b, a));
    assert forall|i: int| 0 <= i < WORLD_HASH_LEN implies sum[i] == 0 by {
        lemma_lane_absorbs(a[i] - b[i], lattice_diff(b, a)[i] as int);
        lemma_lane_absorbs(b[i] - a[i], a[i] - b[i]);
    }
    assert(sum =~= lattice_zero());
}

/// Reading back the bytes of a vector gives the vector.
pub proof fn law_lanes_survive_bytes(lanes: Seq<u16>)
    requires
        lanes.len() == WORLD_HASH_LEN,
    ensures
        lanes_of_bytes(bytes_of_lanes(lanes)) == lanes,
{
    assert(lanes_of_bytes(bytes_of_lanes(lanes)) =~= lanes);
}

/// Writing out the vector that bytes hold gives the bytes.
pub proof fn law_bytes_survive_lanes(bytes: Seq<u8>)
    requires
        bytes.len() == WORLD_HASH_BYTES,
    ensures
        bytes_of_lanes(lanes_of_bytes(bytes)) == bytes,
{
    assert forall|j: int| 0 <= j < WORLD_HASH_BYTES implies bytes_of_lanes(
        lanes_of_bytes(bytes),
    )[j] == bytes[j] by {
        let i = j / 2;
        assert(j == 2 * i || j == 2 * i + 1);
    }
    assert(bytes_of_lanes(lanes_of_bytes(bytes)) =~= bytes);
}

/// The lanes that 2048 bytes hold.
pub(crate) fn lanes_from_bytes(bytes: &[u8; WORLD_HASH_BYTES]) -> (lanes: [u16; WORLD_HASH_LEN])
    ensures
        lanes@ == lanes_of_bytes(bytes@),
{
    let mut lanes = [0u16; WORLD_HASH_LEN];
    for i in 0..WORLD_HASH_LEN
        invariant
            forall|j: int| 0 <= j < i ==> lanes@[j] == lanes_of_bytes(bytes@)[j],
    {
        lanes[i] = bytes[2 * i] as u16 + 0x100 * (bytes[2 * i + 1] as u16);
    }
    assert(lanes@ =~= lanes_of_bytes(bytes@));
    lanes
}

/// The 2048 bytes that hold the lanes.
pub(crate) fn bytes_from_lanes(lanes: &[u16; WORLD_HASH_LEN]) -> (bytes: [u8; WORLD_HASH_BYTES])
    ensures
        bytes@ == bytes_of_lanes(lanes@),
{
    let mut bytes = [0u8; WORLD_HASH_BYTES];
    for i in 0..WORLD_HASH_LEN
        invariant
            forall|j: int| 0 <= j < 2 * i ==> bytes@[j] == bytes_of_lanes(lanes@)[j],
    {
        bytes[2 * i] = (lanes[i] % 0x100) as u8;
        bytes[2 * i + 1] = (lanes[i] / 0x100) as u8;
    }
    assert(bytes@ =~= bytes_of_lanes(lanes@));
    bytes
}

/// Adds `other` to `lanes`, lane by lane.
pub(crate) fn add_lanes(lanes: &mut [u16; WORLD_HASH_LEN], other: &[u16; WORLD_HASH_LEN])
    ensures
        final(lanes)@ == lattice_sum(old(lanes)@, other@),
{
    let ghost goal = lattice_sum(old(lanes)@, other@);
    for i in 0..WORLD_HASH_LEN
        invariant
            goal == lattice_sum(old(lanes)@, other@),
            forall|j: int| 0 <= j < i ==> lanes@[j] == goal[j],
            forall|j: int| i <= j < WORLD_HASH_LEN ==> lanes@[j] == old(lanes)@[j],
    {
        lanes[i] = lanes[i].wrapping_add(other[i]);
    }
    assert(lanes@ =~= goal);
}

/// Subtracts `other` from `lanes`, lane by lane.
pub(crate) fn subtract_lanes(lanes: &mut [u16; WORLD_HASH_LEN], other: &[u16; WORLD_HASH_LEN])
    ensures
        final(lanes)@ == lattice_diff(old(lanes)@, other@),
{
    let ghost goal = lattice_diff(old(lanes)@, other@);
    for i in 0..WORLD_HASH_LEN
        invariant
            goal == lattice_diff(old(lanes)@, other@),
            forall|j: int| 0 <= j < i ==> lanes@[j] == goal[j],
            forall|j: int| i <= j < WORLD_HASH_LEN ==> lanes@[j] == old(lanes)@[j],
    {
        lanes[i] = lanes[i].wrapping_sub(other[i]);
    }
    assert(lanes@ =~= goal);
}

} // verus!
