//! The state that a world hash commits to, and why the two stay in step.

use vstd::prelude::*;

use crate::account::{account_view, lemma_account_fits, AccountView};
use crate::bytes::pow256;
use crate::change::{change_delta, change_deltas, total_delta, StateChange};
use crate::entry::{account_lanes, storage_lanes};
use crate::lattice::{
    law_sum_and_diff_cancel, law_sum_and_diff_exchange, law_sum_associates, law_sum_commutes,
    law_zero_is_neutral, lattice_diff, lattice_sum, lattice_zero, WORLD_HASH_LEN,
};
use crate::primitives::lemma_u256_bound;

verus! {

/// All accounts by address, and all nonzero storage slots by address and slot.
#[verifier::ext_equal]
pub struct ChainState {
    pub accounts: Map<Seq<u8>, AccountView>,
    pub storage: Map<(Seq<u8>, Seq<u8>), nat>,
}

impl ChainState {
    /// The state without accounts and slots.
    pub open spec fn empty() -> ChainState {
        ChainState { accounts: Map::empty(), storage: Map::empty() }
    }

    /// Finitely many accounts and slots, every key, account and value of its
    /// width, and no slot that holds zero.
    pub open spec fn wf(self) -> bool {
        &&& self.accounts.dom().finite()
        &&& self.storage.dom().finite()
        &&& forall|addr: Seq<u8>| #[trigger]
            self.accounts.contains_key(addr) ==> addr.len() == 20 && self.accounts[addr].fits()
        &&& forall|key: (Seq<u8>, Seq<u8>)| #[trigger]
            self.storage.contains_key(key) ==> {
                &&& key.0.len() == 20
                &&& key.1.len() == 32
                &&& 0 < self.storage[key] < pow256(32)
            }
    }

    /// The account at an address, if there is one.
    pub open spec fn account(self, addr: Seq<u8>) -> Option<AccountView> {
        if self.accounts.contains_key(addr) {
            Some(self.accounts[addr])
        } else {
            None
        }
    }

    /// The value of a slot. An absent slot holds zero.
    pub open spec fn slot(self, addr: Seq<u8>, slot: Seq<u8>) -> nat {
        if self.storage.contains_key((addr, slot)) {
            self.storage[(addr, slot)]
        } else {
            0
        }
    }

    /// The state after a change.
    pub open spec fn after(self, change: StateChange) -> ChainState {
        match change {
            StateChange::Account { addr, old, new } => ChainState {
                accounts: self.accounts.insert(addr@, new@),
                ..self
            },
            StateChange::DeleteAccount { addr, old } => ChainState {
                accounts: self.accounts.remove(addr@),
                ..self
            },
            StateChange::Storage { addr, slot, old_value, new_value } => ChainState {
                storage: if new_value@ == 0 {
                    self.storage.remove((addr@, slot@))
                } else {
                    self.storage.insert((addr@, slot@), new_value@)
                },
                ..self
            },
        }
    }

    /// The state after a batch of changes, in order.
    pub open spec fn after_all(self, changes: Seq<StateChange>) -> ChainState
        decreases changes.len(),
    {
        if changes.len() == 0 {
            self
        } else {
            self.after_all(changes.drop_last()).after(changes.last())
        }
    }

    /// Whether a change names as old what the state holds.
    pub open spec fn admits(self, change: StateChange) -> bool {
        match change {
            StateChange::Account { addr, old, new } => self.account(addr@) == account_view(old),
            StateChange::DeleteAccount { addr, old } => self.account(addr@) == Some(old@),
            StateChange::Storage { addr, slot, old_value, new_value } => self.slot(addr@, slot@)
                == old_value@,
        }
    }

    /// Whether each change of a batch names as old what the state holds when
    /// its turn comes.
    pub open spec fn admits_all(self, changes: Seq<StateChange>) -> bool
        decreases changes.len(),
    {
        changes.len() == 0 || {
            &&& self.admits_all(changes.drop_last())
            &&& self.after_all(changes.drop_last()).admits(changes.last())
        }
    }

    /// The world hash of the state: the sum of the hashes of all its entries.
    pub open spec fn commitment(self) -> Seq<u16> {
        lattice_sum(
            map_total(
                self.accounts,
                |addr: Seq<u8>, account: AccountView| account_lanes(addr, account),
            ),
            map_total(
                self.storage,
                |key: (Seq<u8>, Seq<u8>), value: nat| storage_lanes(key.0, key.1, value),
            ),
        )
    }
}

/// The sum of the vectors that `lanes` gives for the entries of a finite map.
pub open spec fn map_total<K, V>(map: Map<K, V>, lanes: spec_fn(K, V) -> Seq<u16>) -> Seq<u16>
    decreases map.dom().len(),
    when map.dom().finite()
{
    if map.dom().len() == 0 {
        lattice_zero()
    } else {
        let key = map.dom().choose();
        lattice_sum(map_total(map.remove(key), lanes), lanes(key, map[key]))
    }
}

/// Any entry can be counted last.
proof fn lemma_map_total_at<K, V>(map: Map<K, V>, lanes: spec_fn(K, V) -> Seq<u16>, key: K)
    requires
        map.dom().finite(),
        map.contains_key(key),
    ensures
        map_total(map, lanes) == lattice_sum(map_total(map.remove(key), lanes), lanes(key, map[key])),
    decreases map.dom().len(),
{
    let first = map.dom().choose();
    assert(map.dom().contains(first));
    if first != key {
        let rest = map.remove(first).remove(key);
        lemma_map_total_at(map.remove(first), lanes, key);
        lemma_map_total_at(map.remove(key), lanes, first);
        assert(rest =~= map.remove(key).remove(first));
        let total = map_total(rest, lanes);
        let (a, b) = (lanes(first, map[first]), lanes(key, map[key]));
        law_sum_associates(total, b, a);
        law_sum_commutes(b, a);
        law_sum_associates(total, a, b);
    }
}

/// A total has 1024 lanes.
proof fn lemma_map_total_len<K, V>(map: Map<K, V>, lanes: spec_fn(K, V) -> Seq<u16>)
    requires
        map.dom().finite(),
    ensures
        map_total(map, lanes).len() == WORLD_HASH_LEN,
{
}

/// What replacing the value at a key does to the total.
proof fn lemma_map_total_replace<K, V>(
    map: Map<K, V>,
    lanes: spec_fn(K, V) -> Seq<u16>,
    key: K,
    new: Option<V>,
)
    requires
        map.dom().finite(),
    ensures
        ({
            let replaced = match new {
                Some(value) => map.insert(key, value),
                None => map.remove(key),
            };
            let put = match new {
                Some(value) => lanes(key, value),
                None => lattice_zero(),
            };
            let taken = if map.contains_key(key) {
                lanes(key, map[key])
            } else {
                lattice_zero()
            };
            map_total(replaced, lanes) == lattice_sum(
                map_total(map, lanes),
                lattice_diff(put, taken),
            )
        }),
{
    let rest = map.remove(key);
    let put = match new {
        Some(value) => lanes(key, value),
        None => lattice_zero(),
    };
    let taken = if map.contains_key(key) {
        lanes(key, map[key])
    } else {
        lattice_zero()
    };
    let total = map_total(map, lanes);
    let rest_total = map_total(rest, lanes);
    lemma_map_total_len(map, lanes);
    lemma_map_total_len(rest, lanes);
    assert(rest_total == lattice_diff(total, taken)) by {
        if map.contains_key(key) {
            lemma_map_total_at(map, lanes, key);
            law_sum_and_diff_cancel(rest_total, taken);
        } else {
            assert(rest =~= map);
            law_zero_is_neutral(total);
        }
    }
    law_sum_and_diff_exchange(total, taken, put);
    match new {
        Some(value) => {
            let replaced = map.insert(key, value);
            lemma_map_total_at(replaced, lanes, key);
            assert(replaced.remove(key) =~= rest);
        },
        None => {
            law_zero_is_neutral(rest_total);
        },
    }
}

/// A change keeps the state well-formed, whatever it names as old.
pub proof fn law_change_keeps_state_well_formed(state: ChainState, change: StateChange)
    requires
        state.wf(),
    ensures
        state.after(change).wf(),
{
    match change {
        StateChange::Account { addr, old, new } => {
            lemma_account_fits(new);
        },
        StateChange::DeleteAccount { addr, old } => {},
        StateChange::Storage { addr, slot, old_value, new_value } => {
            lemma_u256_bound(new_value);
        },
    }
}

/// A batch of changes keeps the state well-formed, whatever the changes name
/// as old.
pub proof fn law_changes_keep_state_well_formed(state: ChainState, changes: Seq<StateChange>)
    requires
        state.wf(),
    ensures
        state.after_all(changes).wf(),
    decreases changes.len(),
{
    if changes.len() > 0 {
        let before = changes.drop_last();
        law_changes_keep_state_well_formed(state, before);
        law_change_keeps_state_well_formed(state.after_all(before), changes.last());
    }
}

/// A change that names as old what the state holds moves the commitment of
/// the state by the delta of the change, and keeps the state well-formed.
pub proof fn law_change_moves_commitment(state: ChainState, change: StateChange)
    requires
        state.wf(),
        state.admits(change),
    ensures
        state.after(change).wf(),
        state.after(change).commitment() == lattice_sum(state.commitment(), change_delta(change)),
{
    let account_fn = |addr: Seq<u8>, account: AccountView| account_lanes(addr, account);
    let storage_fn = |key: (Seq<u8>, Seq<u8>), value: nat| storage_lanes(key.0, key.1, value);
    let accounts = map_total(state.accounts, account_fn);
    let storage = map_total(state.storage, storage_fn);
    let delta = change_delta(change);
    law_change_keeps_state_well_formed(state, change);
    match change {
        StateChange::Account { addr, old, new } => {
            lemma_map_total_replace(state.accounts, account_fn, addr@, Some(new@));
            law_sum_associates(accounts, delta, storage);
            law_sum_commutes(delta, storage);
            law_sum_associates(accounts, storage, delta);
        },
        StateChange::DeleteAccount { addr, old } => {
            lemma_map_total_replace(state.accounts, account_fn, addr@, None);
            law_sum_associates(accounts, delta, storage);
            law_sum_commutes(delta, storage);
            law_sum_associates(accounts, storage, delta);
        },
        StateChange::Storage { addr, slot, old_value, new_value } => {
            let new = if new_value@ == 0 {
                None
            } else {
                Some(new_value@)
            };
            lemma_map_total_replace(state.storage, storage_fn, (addr@, slot@), new);
            law_sum_associates(accounts, storage, delta);
        },
    }
}

/// The central law: a batch of changes moves the world hash of a state to the
/// world hash of the state after the batch. The hash stays the sum of the
/// hashes of all entries, though only the changed entries are hashed.
pub proof fn law_world_hash_is_sum_of_entries(state: ChainState, changes: Seq<StateChange>)
    requires
        state.wf(),
        state.admits_all(changes),
    ensures
        state.after_all(changes).wf(),
        state.after_all(changes).commitment() == lattice_sum(
            state.commitment(),
            total_delta(changes),
        ),
    decreases changes.len(),
{
    if changes.len() == 0 {
        law_zero_is_neutral(state.commitment());
    } else {
        let before = changes.drop_last();
        law_world_hash_is_sum_of_entries(state, before);
        law_change_moves_commitment(state.after_all(before), changes.last());
        assert(change_deltas(changes).drop_last() =~= change_deltas(before));
        law_sum_associates(state.commitment(), total_delta(before), change_delta(changes.last()));
    }
}

/// The commitment counts each entry once: a further account adds the lanes of its
/// hash, and so does a further slot.
pub proof fn law_commitment_counts_each_entry(
    state: ChainState,
    addr: Seq<u8>,
    account: AccountView,
    slot: Seq<u8>,
    value: nat,
)
    requires
        state.accounts.dom().finite(),
        state.storage.dom().finite(),
    ensures
        !state.accounts.contains_key(addr) ==> (ChainState {
            accounts: state.accounts.insert(addr, account),
            storage: state.storage,
        }).commitment() == lattice_sum(state.commitment(), account_lanes(addr, account)),
        !state.storage.contains_key((addr, slot)) ==> (ChainState {
            accounts: state.accounts,
            storage: state.storage.insert((addr, slot), value),
        }).commitment() == lattice_sum(state.commitment(), storage_lanes(addr, slot, value)),
{
    let account_fn = |addr: Seq<u8>, account: AccountView| account_lanes(addr, account);
    let storage_fn = |key: (Seq<u8>, Seq<u8>), value: nat| storage_lanes(key.0, key.1, value);
    let accounts = map_total(state.accounts, account_fn);
    let storage = map_total(state.storage, storage_fn);
    let put = account_lanes(addr, account);
    lemma_map_total_replace(state.accounts, account_fn, addr, Some(account));
    lemma_map_total_replace(state.storage, storage_fn, (addr, slot), Some(value));
    law_zero_is_neutral(put);
    law_zero_is_neutral(storage_lanes(addr, slot, value));
    law_sum_associates(accounts, put, storage);
    law_sum_commutes(put, storage);
    law_sum_associates(accounts, storage, put);
    law_sum_associates(accounts, storage, storage_lanes(addr, slot, value));
}

/// A change decides what its own entry holds and leaves every other account and
/// slot alone.
pub proof fn law_change_touches_one_entry(
    state: ChainState,
    change: StateChange,
    addr: Seq<u8>,
    slot: Seq<u8>,
)
    ensures
        state.after(change).account(addr) == (match change {
            StateChange::Account { addr: changed, old, new } => if addr == changed.0@ {
                Some(
                    AccountView {
                        nonce: new.nonce,
                        balance: new.balance@,
                        code_hash: new.code_hash.0@,
                    },
                )
            } else {
                state.account(addr)
            },
            StateChange::DeleteAccount { addr: changed, old } => if addr == changed.0@ {
                None
            } else {
                state.account(addr)
            },
            StateChange::Storage { .. } => state.account(addr),
        }),
        state.after(change).slot(addr, slot) == (match change {
            StateChange::Storage { addr: changed, slot: set, old_value, new_value } => if addr
                == changed.0@ && slot == set.0@ {
                new_value@
            } else {
                state.slot(addr, slot)
            },
            _ => state.slot(addr, slot),
        }),
{
}

/// The world hash of the empty state is zero.
pub proof fn law_empty_state_commits_to_zero()
    ensures
        ChainState::empty().wf(),
        ChainState::empty().commitment() == lattice_zero(),
{
    law_zero_is_neutral(lattice_zero());
}

/// The world hash depends on the state alone, not on the way to it: two
/// batches that lead from one state to the same state move the hash alike.
pub proof fn law_history_is_irrelevant(
    state: ChainState,
    first: Seq<StateChange>,
    second: Seq<StateChange>,
)
    requires
        state.wf(),
        state.admits_all(first),
        state.admits_all(second),
        state.after_all(first) == state.after_all(second),
    ensures
        total_delta(first) == total_delta(second),
{
    law_world_hash_is_sum_of_entries(state, first);
    law_world_hash_is_sum_of_entries(state, second);
    let base = state.commitment();
    let (a, b) = (total_delta(first), total_delta(second));
    law_sum_commutes(base, a);
    law_sum_commutes(base, b);
    law_sum_and_diff_cancel(a, base);
    law_sum_and_diff_cancel(b, base);
}

} // verus!
