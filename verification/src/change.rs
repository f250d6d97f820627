//! State changes and their effect on a world hash.

use vstd::prelude::*;

use crate::account::{account_view, AccountState, AccountView};
use crate::entry::{account_lanes, storage_lanes, EntryHash};
use crate::lattice::{
    law_opposite_diffs_cancel, law_sum_and_diff_exchange, law_sum_associates, law_sum_commutes, law_zero_is_neutral,
    lattice_diff, lattice_sum, lattice_zero, WORLD_HASH_LEN,
};
use crate::outside;
use crate::primitives::{Address, B256, U256};
use crate::world::WorldHash;

verus! {

/// A change of the state, with the values that it replaces.
#[derive(Clone, Debug)]
pub enum StateChange {
    /// Insert or update an account. `old` is `None` for a new account.
    Account { addr: Address, old: Option<AccountState>, new: AccountState },
    /// Delete an account.
    DeleteAccount { addr: Address, old: AccountState },
    /// Insert, update or clear a storage slot. Zero stands for an empty slot.
    Storage { addr: Address, slot: B256, old_value: U256, new_value: U256 },
}

/// What an account contributes to the world hash. No account contributes
/// nothing.
pub open spec fn account_share(addr: Seq<u8>, account: Option<AccountView>) -> Seq<u16> {
    match account {
        Some(account) => account_lanes(addr, account),
        None => lattice_zero(),
    }
}

/// What a storage slot contributes to the world hash. An empty slot, which
/// holds zero, contributes nothing.
pub open spec fn storage_share(addr: Seq<u8>, slot: Seq<u8>, value: nat) -> Seq<u16> {
    if value == 0 {
        lattice_zero()
    } else {
        storage_lanes(addr, slot, value)
    }
}

/// By how much a change moves the world hash: the share of what it puts minus
/// the share of what it replaces.
pub open spec fn change_delta(change: StateChange) -> Seq<u16> {
    match change {
        StateChange::Account { addr, old, new } => lattice_diff(
            account_lanes(addr@, new@),
            account_share(addr@, account_view(old)),
        ),
        StateChange::DeleteAccount { addr, old } => lattice_diff(
            lattice_zero(),
            account_lanes(addr@, old@),
        ),
        StateChange::Storage { addr, slot, old_value, new_value } => lattice_diff(
            storage_share(addr@, slot@, new_value@),
            storage_share(addr@, slot@, old_value@),
        ),
    }
}

/// The deltas of the changes, in order.
pub open spec fn change_deltas(changes: Seq<StateChange>) -> Seq<Seq<u16>> {
    Seq::new(changes.len(), |i: int| change_delta(changes[i]))
}

/// The sum of the vectors of a sequence.
pub open spec fn lattice_total(vectors: Seq<Seq<u16>>) -> Seq<u16>
    decreases vectors.len(),
{
    if vectors.len() == 0 {
        lattice_zero()
    } else {
        lattice_sum(lattice_total(vectors.drop_last()), vectors.last())
    }
}

/// By how much a batch of changes moves the world hash.
pub open spec fn total_delta(changes: Seq<StateChange>) -> Seq<u16> {
    lattice_total(change_deltas(changes))
}

/// A way to bracket a sum: the items in their order, with any number of zeros
/// among them.
pub enum Reduction {
    Zero,
    Item(Seq<u16>),
    Join(Box<Reduction>, Box<Reduction>),
}

impl Reduction {
    /// The items, in order.
    pub open spec fn items(self) -> Seq<Seq<u16>>
        decreases self,
    {
        match self {
            Reduction::Zero => Seq::empty(),
            Reduction::Item(item) => seq![item],
            Reduction::Join(left, right) => left.items() + right.items(),
        }
    }

    /// What the sum comes to in this bracketing.
    pub open spec fn value(self) -> Seq<u16>
        decreases self,
    {
        match self {
            Reduction::Zero => lattice_zero(),
            Reduction::Item(item) => item,
            Reduction::Join(left, right) => lattice_sum(left.value(), right.value()),
        }
    }
}

/// Whether some bracketing of the items, with zeros anywhere among them, comes
/// to the value.
pub open spec fn is_bracketed_sum(value: Seq<u16>, items: Seq<Seq<u16>>) -> bool {
    exists|reduction: Reduction| #[trigger]
        reduction.items() == items && reduction.value() == value
}

/// The total of a single vector is the vector.
proof fn lemma_total_of_one(vector: Seq<u16>)
    requires
        vector.len() == WORLD_HASH_LEN,
    ensures
        lattice_total(seq![vector]) == vector,
{
    assert(lattice_total(seq![vector].drop_last()) == lattice_zero());
    law_zero_is_neutral(vector);
}

/// The total of two sequences, one after the other, is the sum of their totals.
pub proof fn law_total_of_concatenation(a: Seq<Seq<u16>>, b: Seq<Seq<u16>>)
    ensures
        lattice_total(a + b) == lattice_sum(lattice_total(a), lattice_total(b)),
    decreases b.len(),
{
    if b.len() == 0 {
        assert(a + b =~= a);
        law_zero_is_neutral(lattice_total(a));
    } else {
        law_total_of_concatenation(a, b.drop_last());
        assert((a + b).drop_last() =~= a + b.drop_last());
        law_sum_associates(lattice_total(a), lattice_total(b.drop_last()), b.last());
    }
}

/// Every bracketing of a sum, with zeros anywhere among the items, comes to
/// the same: the total of the items.
pub proof fn law_bracketing_is_irrelevant(reduction: Reduction)
    requires
        forall|i: int|
            0 <= i < reduction.items().len() ==> (#[trigger] reduction.items()[i]).len()
                == WORLD_HASH_LEN,
    ensures
        reduction.value() == lattice_total(reduction.items()),
    decreases reduction,
{
    match reduction {
        Reduction::Zero => {
            assert(lattice_total(reduction.items()) == lattice_zero());
        },
        Reduction::Item(item) => {
            assert(reduction.items()[0] == item);
            lemma_total_of_one(item);
        },
        Reduction::Join(left, right) => {
            let items = reduction.items();
            assert forall|i: int| 0 <= i < left.items().len() implies (
            #[trigger] left.items()[i]).len() == WORLD_HASH_LEN by {
                assert(items[i] == left.items()[i]);
            }
            assert forall|i: int| 0 <= i < right.items().len() implies (
            #[trigger] right.items()[i]).len() == WORLD_HASH_LEN by {
                assert(items[left.items().len() + i] == right.items()[i]);
            }
            law_bracketing_is_irrelevant(*left);
            law_bracketing_is_irrelevant(*right);
            law_total_of_concatenation(left.items(), right.items());
        },
    }
}

/// A batch can be cut in two: its effect is the sum of the effects of the
/// parts.
pub proof fn law_batches_compose(first: Seq<StateChange>, second: Seq<StateChange>)
    ensures
        total_delta(first + second) == lattice_sum(total_delta(first), total_delta(second)),
{
    assert(change_deltas(first + second) =~= change_deltas(first) + change_deltas(second));
    law_total_of_concatenation(change_deltas(first), change_deltas(second));
}

/// Taking a change out of a batch takes its delta out of the total.
proof fn lemma_total_without(changes: Seq<StateChange>, at: int)
    requires
        0 <= at < changes.len(),
    ensures
        total_delta(changes) == lattice_sum(
            total_delta(changes.remove(at)),
            change_delta(changes[at]),
        ),
{
    let before = changes.subrange(0, at);
    let after = changes.subrange(at + 1, changes.len() as int);
    let one = seq![changes[at]];
    assert(changes =~= before + one + after);
    assert(changes.remove(at) =~= before + after);
    law_batches_compose(before + one, after);
    law_batches_compose(before, one);
    law_batches_compose(before, after);
    assert(total_delta(one) == change_delta(changes[at])) by {
        assert(change_deltas(one) =~= seq![change_delta(changes[at])]);
        lemma_total_of_one(change_delta(changes[at]));
    }
    let (b, o, a) = (total_delta(before), total_delta(one), total_delta(after));
    law_sum_associates(b, o, a);
    law_sum_commutes(o, a);
    law_sum_associates(b, a, o);
}

/// The order of the changes of a batch does not matter: two batches that hold
/// the same changes equally often move the world hash alike.
pub proof fn law_order_of_changes_is_irrelevant(a: Seq<StateChange>, b: Seq<StateChange>)
    requires
        a.to_multiset() == b.to_multiset(),
    ensures
        total_delta(a) == total_delta(b),
    decreases a.len(),
{
    a.to_multiset_ensures();
    b.to_multiset_ensures();
    assert(a.len() == b.len());
    if a.len() > 0 {
        let last = a.last();
        assert(a.contains(last));
        assert(a.to_multiset().count(last) > 0);
        assert(b.contains(last));
        let at = b.index_of(last);
        assert(a.drop_last() =~= a.remove(a.len() - 1));
        law_order_of_changes_is_irrelevant(a.drop_last(), b.remove(at));
        lemma_total_without(a, a.len() - 1);
        lemma_total_without(b, at);
    } else {
        assert(a =~= b);
    }
}

/// Deleting an account undoes inserting it.
pub proof fn law_deleting_undoes_inserting(addr: Address, account: AccountState)
    ensures
        lattice_sum(
            change_delta(StateChange::Account { addr, old: None, new: account }),
            change_delta(StateChange::DeleteAccount { addr, old: account }),
        ) == lattice_zero(),
{
    law_opposite_diffs_cancel(account_lanes(addr@, account@), lattice_zero());
}

/// Updating an account back undoes updating it.
pub proof fn law_updating_back_undoes_updating(addr: Address, a: AccountState, b: AccountState)
    ensures
        lattice_sum(
            change_delta(StateChange::Account { addr, old: Some(a), new: b }),
            change_delta(StateChange::Account { addr, old: Some(b), new: a }),
        ) == lattice_zero(),
{
    law_opposite_diffs_cancel(account_lanes(addr@, b@), account_lanes(addr@, a@));
}

/// Setting a slot back undoes setting it, also from and to an empty slot.
pub proof fn law_setting_back_undoes_setting(addr: Address, slot: B256, a: U256, b: U256)
    ensures
        lattice_sum(
            change_delta(StateChange::Storage { addr, slot, old_value: a, new_value: b }),
            change_delta(StateChange::Storage { addr, slot, old_value: b, new_value: a }),
        ) == lattice_zero(),
{
    law_opposite_diffs_cancel(
        storage_share(addr@, slot@, b@),
        storage_share(addr@, slot@, a@),
    );
}

/// A change that puts what it replaces does not move the world hash.
pub proof fn law_idle_changes_do_nothing(addr: Address, slot: B256, a: AccountState, value: U256)
    ensures
        change_delta(StateChange::Account { addr, old: Some(a), new: a }) == lattice_zero(),
        change_delta(StateChange::Storage { addr, slot, old_value: value, new_value: value })
            == lattice_zero(),
{
    law_zero_is_neutral(account_lanes(addr@, a@));
    law_zero_is_neutral(storage_share(addr@, slot@, value@));
}

/// Applies the changes to the world hash, one after the other.
pub fn apply_sequential(world: &mut WorldHash, changes: &[StateChange])
    ensures
        final(world)@ == lattice_sum(old(world)@, total_delta(changes@)),
{
    broadcast use crate::world::lemma_world_hash_len;

    proof {
        assert(change_deltas(changes@.take(0)) =~= Seq::<Seq<u16>>::empty());
        law_zero_is_neutral(world@);
    }
    for i in 0..changes.len()
        invariant
            world@ == lattice_sum(old(world)@, total_delta(changes@.take(i as int))),
    {
        apply_one(world, &changes[i]);
        proof {
            let deltas = change_deltas(changes@.take(i + 1));
            assert(deltas.drop_last() =~= change_deltas(changes@.take(i as int)));
            law_sum_associates(
                old(world)@,
                total_delta(changes@.take(i as int)),
                change_delta(changes@[i as int]),
            );
        }
    }
    assert(changes@.take(changes@.len() as int) =~= changes@);
}

/// Applies one change to the world hash.
pub fn apply_one(world: &mut WorldHash, change: &StateChange)
    ensures
        final(world)@ == lattice_sum(old(world)@, change_delta(*change)),
{
    broadcast use crate::world::lemma_world_hash_len;
    broadcast use crate::entry::lemma_entry_hash_len;

    match change {
        StateChange::Account { addr, old, new } => {
            let new_hash = EntryHash::for_account(addr, new.nonce, new.balance, new.code_hash);
            if let Some(old) = old {
                let old_hash = EntryHash::for_account(addr, old.nonce, old.balance, old.code_hash);
                proof {
                    law_sum_and_diff_exchange(world@, old_hash@, new_hash@);
                }
                world.update(&old_hash, &new_hash);
            } else {
                proof {
                    law_zero_is_neutral(new_hash@);
                }
                world.add(&new_hash);
            }
        },
        StateChange::DeleteAccount { addr, old } => {
            let old_hash = EntryHash::for_account(addr, old.nonce, old.balance, old.code_hash);
            proof {
                law_sum_and_diff_exchange(world@, old_hash@, lattice_zero());
                law_zero_is_neutral(lattice_diff(world@, old_hash@));
            }
            world.remove(&old_hash);
        },
        StateChange::Storage { addr, slot, old_value, new_value } => {
            if *old_value == *new_value {
                proof {
                    law_zero_is_neutral(storage_share(addr@, slot@, new_value@));
                    law_zero_is_neutral(world@);
                }
                return ;
            }
            if old_value.is_zero() {
                let new_hash = EntryHash::for_storage(addr, *slot, *new_value);
                proof {
                    law_zero_is_neutral(new_hash@);
                }
                world.add(&new_hash);
            } else if new_value.is_zero() {
                let old_hash = EntryHash::for_storage(addr, *slot, *old_value);
                proof {
                    law_sum_and_diff_exchange(world@, old_hash@, lattice_zero());
                    law_zero_is_neutral(lattice_diff(world@, old_hash@));
                }
                world.remove(&old_hash);
            } else {
                let old_hash = EntryHash::for_storage(addr, *slot, *old_value);
                let new_hash = EntryHash::for_storage(addr, *slot, *new_value);
                proof {
                    law_sum_and_diff_exchange(world@, old_hash@, new_hash@);
                }
                world.update(&old_hash, &new_hash);
            }
        },
    }
}

/// The world hash of a single change, from zero.
pub(crate) fn delta_of(change: &StateChange) -> (delta: WorldHash)
    ensures
        delta@ == change_delta(*change),
{
    let mut delta = WorldHash::new();
    apply_one(&mut delta, change);
    proof {
        law_zero_is_neutral(change_delta(*change));
    }
    delta
}

/// The sum of two world hashes.
pub(crate) fn join_deltas(left: WorldHash, right: WorldHash) -> (sum: WorldHash)
    ensures
        sum@ == lattice_sum(left@, right@),
{
    let mut sum = left;
    sum.merge(&right);
    sum
}

/// Applies the changes to the world hash, with the deltas computed in parallel.
///
/// Addition commutes, so the result does not depend on the schedule.
pub fn apply_parallel(world: &mut WorldHash, changes: &[StateChange])
    ensures
        final(world)@ == lattice_sum(old(world)@, total_delta(changes@)),
{
    let delta = outside::reduce_deltas(changes);
    proof {
        let reduction = choose|reduction: Reduction|
            #[trigger] reduction.items() == change_deltas(changes@) && reduction.value() == delta@;
        law_bracketing_is_irrelevant(reduction);
    }
    world.merge(&delta);
}

} // verus!
