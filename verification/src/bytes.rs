//! Numbers as byte strings, least or most significant byte first.

use vstd::prelude::*;

verus! {

/// The number of values that `n` bytes can take.
pub open spec fn pow256(n: nat) -> nat
    decreases n,
{
    if n == 0 {
        1
    } else {
        0x100 * pow256((n - 1) as nat)
    }
}

/// The `n` low bytes of `v`, least significant byte first.
pub open spec fn le_bytes(v: nat, n: nat) -> Seq<u8>
    decreases n,
{
    if n == 0 {
        Seq::empty()
    } else {
        seq![(v % 0x100) as u8] + le_bytes(v / 0x100, (n - 1) as nat)
    }
}

/// The number that the bytes hold, least significant byte first.
pub open spec fn le_value(s: Seq<u8>) -> nat
    decreases s.len(),
{
    if s.len() == 0 {
        0
    } else {
        s[0] as nat + 0x100 * le_value(s.drop_first())
    }
}

/// The `n` low bytes of `v`, most significant byte first.
pub open spec fn be_bytes(v: nat, n: nat) -> Seq<u8> {
    le_bytes(v, n).reverse()
}

/// The number that the bytes hold, most significant byte first.
pub open spec fn be_value(s: Seq<u8>) -> nat {
    le_value(s.reverse())
}

/// The number whose four base-2^64 digits are the limbs, least significant
/// limb first.
pub open spec fn limbs_value(limbs: Seq<u64>) -> nat {
    (limbs[0] + 0x1_0000_0000_0000_0000 * (limbs[1] + 0x1_0000_0000_0000_0000 * (limbs[2]
        + 0x1_0000_0000_0000_0000 * limbs[3]))) as nat
}

/// The byte form of a number has the length asked for.
pub proof fn lemma_le_bytes_len(v: nat, n: nat)
    ensures
        le_bytes(v, n).len() == n,
    decreases n,
{
    if n > 0 {
        lemma_le_bytes_len(v / 0x100, (n - 1) as nat);
    }
}

/// The number that bytes hold is below the count of such byte strings.
pub proof fn lemma_le_value_bound(s: Seq<u8>)
    ensures
        le_value(s) < pow256(s.len()),
    decreases s.len(),
{
    if s.len() > 0 {
        lemma_le_value_bound(s.drop_first());
    }
}

/// A number that fits survives the way through its bytes.
pub proof fn law_value_survives_le_bytes(v: nat, n: nat)
    requires
        v < pow256(n),
    ensures
        le_value(le_bytes(v, n)) == v,
    decreases n,
{
    if n > 0 {
        law_value_survives_le_bytes(v / 0x100, (n - 1) as nat);
        assert(le_bytes(v, n).drop_first() =~= le_bytes(v / 0x100, (n - 1) as nat));
    }
}

/// Bytes survive the way through the number that they hold.
pub proof fn law_le_bytes_survive_value(s: Seq<u8>)
    ensures
        le_bytes(le_value(s), s.len()) == s,
    decreases s.len(),
{
    if s.len() > 0 {
        law_le_bytes_survive_value(s.drop_first());
        assert(le_bytes(le_value(s), s.len()) =~= seq![s[0]] + s.drop_first());
        assert(seq![s[0]] + s.drop_first() =~= s);
    } else {
        assert(le_bytes(le_value(s), s.len()) =~= s);
    }
}

/// A number that fits survives the way through its bytes, most significant
/// byte first.
pub proof fn law_value_survives_be_bytes(v: nat, n: nat)
    requires
        v < pow256(n),
    ensures
        be_bytes(v, n).len() == n,
        be_value(be_bytes(v, n)) == v,
{
    lemma_le_bytes_len(v, n);
    law_value_survives_le_bytes(v, n);
    assert(le_bytes(v, n).reverse().reverse() =~= le_bytes(v, n));
}

/// Bytes survive the way through the number that they hold, most significant
/// byte first.
pub proof fn law_be_bytes_survive_value(s: Seq<u8>)
    ensures
        be_bytes(be_value(s), s.len()) == s,
{
    law_le_bytes_survive_value(s.reverse());
    assert(s.reverse().reverse() =~= s);
}

/// Copies `src` into `buf` from index `at` on.
pub(crate) fn copy_into<const N: usize>(buf: &mut [u8; N], at: usize, src: &[u8])
    requires
        at + src@.len() <= N,
    ensures
        forall|j: int|
            0 <= j < N ==> #[trigger] final(buf)@[j] == (if at <= j < at + src@.len() {
                src@[j - at]
            } else {
                old(buf)@[j]
            }),
{
    for i in 0..src.len()
        invariant
            at + src@.len() <= N,
            forall|j: int|
                0 <= j < N ==> #[trigger] buf@[j] == (if at <= j < at + i {
                    src@[j - at]
                } else {
                    old(buf)@[j]
                }),
    {
        buf[at + i] = src[i];
    }
}

/// The eight bytes of `x`, least significant byte first.
pub(crate) fn u64_to_le_bytes(x: u64) -> (out: [u8; 8])
    ensures
        out@ == le_bytes(x as nat, 8),
{
    let mut out = [0u8; 8];
    let mut rest: u64 = x;
    let ghost whole = le_bytes(x as nat, 8);
    proof {
        lemma_le_bytes_len(x as nat, 8);
        assert(whole.skip(0) =~= whole);
    }
    for i in 0..8usize
        invariant
            whole.len() == 8,
            whole.skip(i as int) == le_bytes(rest as nat, (8 - i) as nat),
            forall|j: int| 0 <= j < i ==> out@[j] == whole[j],
    {
        proof {
            let tail = le_bytes(rest as nat, (8 - i) as nat);
            assert(whole.skip(i as int)[0] == whole[i as int]);
            assert(tail[0] == (rest % 0x100) as u8);
            assert(whole.skip(i + 1) =~= tail.drop_first());
            assert(tail.drop_first() =~= le_bytes(rest as nat / 0x100, (7 - i) as nat));
        }
        out[i] = (rest % 0x100) as u8;
        rest = rest / 0x100;
    }
    assert(out@ =~= whole);
    out
}

/// The number that eight bytes hold, least significant byte first.
pub(crate) fn u64_from_le_bytes(bytes: &[u8]) -> (x: u64)
    requires
        bytes@.len() == 8,
    ensures
        x == le_value(bytes@),
{
    let mut x: u64 = 0;
    let mut i: usize = 8;
    proof {
        assert(pow256(0) == 1);
        assert(pow256(8) == 0x1_0000_0000_0000_0000) by {
            reveal_with_fuel(pow256, 9);
        }
    }
    while i > 0
        invariant
            i <= 8,
            bytes@.len() == 8,
            pow256(8) == 0x1_0000_0000_0000_0000,
            x == le_value(bytes@.skip(i as int)),
        decreases i,
    {
        i = i - 1;
        proof {
            let tail = bytes@.skip(i as int);
            assert(tail.drop_first() =~= bytes@.skip(i + 1));
            assert(le_value(tail) == bytes@[i as int] + 0x100 * x);
            lemma_le_value_bound(tail);
            lemma_pow256_monotone(tail.len(), 8);
        }
        x = bytes[i] as u64 + 0x100 * x;
    }
    assert(bytes@.skip(0) =~= bytes@);
    x
}

/// Four limbs hold the numbers that fit in 32 bytes, each in one way.
pub proof fn lemma_limbs_value(a: Seq<u64>, b: Seq<u64>)
    requires
        a.len() == 4,
        b.len() == 4,
    ensures
        limbs_value(a) < pow256(32),
        limbs_value(a) == limbs_value(b) <==> a == b,
{
    reveal_with_fuel(pow256, 33);
    if limbs_value(a) == limbs_value(b) {
        assert(a =~= b);
    }
}

proof fn lemma_pow256_monotone(m: nat, n: nat)
    requires
        m <= n,
    ensures
        1 <= pow256(m) <= pow256(n),
    decreases n,
{
    if n > 0 {
        if m < n {
            lemma_pow256_monotone(m, (n - 1) as nat);
        } else {
            lemma_pow256_monotone((m - 1) as nat, (n - 1) as nat);
        }
    }
}

} // verus!
