//! A map from accounts to values, kept as a vector of slots in ascending
//! order of account.
//!
//! The order makes every walk over the map the same walk: the slots come in
//! ascending order of account, whatever the order in which they were put in.

use vstd::prelude::*;
use crate::types::AccountId;

verus! {

/// One entry of an [`AccountMap`].
#[derive(Clone, Debug, PartialEq, Eq)]
struct Slot<V> {
    account: AccountId,
    value: V,
}

/// A map from accounts to values. Its view is a `Map`; its accounts, in the
/// order in which a walk meets them, are `keys()`.
#[derive(Clone, Debug, PartialEq, Eq)]
pub struct AccountMap<V> {
    slots: Vec<Slot<V>>,
}

/// Each account is below all that follow it.
pub open spec fn strictly_ascending(keys: Seq<AccountId>) -> bool {
    forall|i: int, j: int| 0 <= i < j < keys.len() ==> keys[i] < keys[j]
}

/// The accounts of `dom` that are below `bound`, in ascending order.
pub open spec fn keys_below(dom: Set<AccountId>, bound: nat) -> Seq<AccountId>
    decreases bound,
{
    if bound == 0 {
        Seq::empty()
    } else {
        let rest = keys_below(dom, (bound - 1) as nat);
        if bound - 1 <= u64::MAX && dom.contains((bound - 1) as u64) {
            rest.push((bound - 1) as u64)
        } else {
            rest
        }
    }
}

/// All accounts of `dom`, in ascending order.
pub open spec fn ascending_keys(dom: Set<AccountId>) -> Seq<AccountId> {
    keys_below(dom, 0x1_0000_0000_0000_0000)
}

/// The number of leading accounts of `keys` that are below `bound`, for
/// `keys` in ascending order.
spec fn rank(keys: Seq<AccountId>, bound: nat) -> nat
    decreases keys.len(),
{
    if keys.len() == 0 {
        0
    } else if keys.last() < bound {
        keys.len()
    } else {
        rank(keys.drop_last(), bound)
    }
}

/// `rank` splits an ascending sequence into the accounts below the bound and
/// the rest.
proof fn lemma_rank(keys: Seq<AccountId>, bound: nat)
    requires
        strictly_ascending(keys),
    ensures
        rank(keys, bound) <= keys.len(),
        forall|i: int| 0 <= i < rank(keys, bound) ==> keys[i] < bound,
        forall|i: int| rank(keys, bound) <= i < keys.len() ==> keys[i] >= bound,
    decreases keys.len(),
{
    if keys.len() > 0 && !(keys.last() < bound) {
        let front = keys.drop_last();
        assert forall|i: int, j: int| 0 <= i < j < front.len() implies front[i] < front[j] by {
            assert(front[i] == keys[i] && front[j] == keys[j]);
        }
        lemma_rank(front, bound);
        assert forall|i: int| 0 <= i < rank(keys, bound) implies keys[i] < bound by {
            assert(front[i] == keys[i]);
        }
        assert forall|i: int| rank(keys, bound) <= i < keys.len() implies keys[i] >= bound by {
            if i < front.len() {
                assert(front[i] == keys[i]);
            }
        }
    }
}

/// Below any bound, an ascending sequence and the ascending order of its
/// set of accounts agree.
proof fn lemma_keys_below(keys: Seq<AccountId>, dom: Set<AccountId>, bound: nat)
    requires
        strictly_ascending(keys),
        forall|k: AccountId| dom.contains(k) <==> keys.contains(k),
    ensures
        keys_below(dom, bound) == keys.take(rank(keys, bound) as int),
    decreases bound,
{
    lemma_rank(keys, bound);
    if bound == 0 {
        if rank(keys, bound) > 0 {
            assert(keys[0] < bound);
        }
        assert(keys.take(0) =~= Seq::<AccountId>::empty());
    } else {
        let below = (bound - 1) as nat;
        lemma_keys_below(keys, dom, below);
        lemma_rank(keys, below);
        let r = rank(keys, below) as int;
        let r1 = rank(keys, bound) as int;
        if below <= u64::MAX && dom.contains(below as u64) {
            let i = choose|i: int| 0 <= i < keys.len() && keys[i] == below as u64;
            assert(r <= i);
            assert(i < r1);
            if r < i {
                assert(keys[r] < keys[i]);
            }
            if i + 1 < r1 {
                assert(keys[i] < keys[i + 1]);
            }
            assert(keys.take(r1) =~= keys.take(r).push(below as u64));
        } else {
            if r < r1 {
                assert(keys[r] >= below);
                assert(keys[r] < bound);
                assert(keys[r] == below as u64);
                assert(keys.contains(keys[r]));
                assert(dom.contains(keys[r]));
            }
            if r1 < r {
                assert(keys[r1] < below);
                assert(keys[r1] >= bound);
            }
            assert(r == r1);
        }
    }
}

impl<V> View for AccountMap<V> {
    type V = Map<AccountId, V>;

    /// What the map holds: the value of each account that has a slot.
    closed spec fn view(&self) -> Map<AccountId, V> {
        Map::new(
            |k: AccountId| self.keys().contains(k),
            |k: AccountId| self.slots@[self.keys().index_of(k)].value,
        )
    }
}

impl<V> AccountMap<V> {
    /// The accounts that have a slot, in the order of the slots.
    pub closed spec fn keys(&self) -> Seq<AccountId> {
        Seq::new(self.slots@.len(), |i: int| self.slots@[i].account)
    }

    /// The slots are in ascending order of account, so no account has two.
    pub closed spec fn wf(&self) -> bool {
        strictly_ascending(self.keys())
    }

    /// The slots hold the view, account by account, and their order is the
    /// ascending order of the accounts in the view.
    pub proof fn lemma_keys(&self)
        requires
            self.wf(),
        ensures
            self.keys() == ascending_keys(self@.dom()),
            self.keys().len() == self@.dom().len(),
            self@.dom().finite(),
            forall|i: int| 0 <= i < self.keys().len() ==> self@.contains_key(#[trigger] self.keys()[i]),
            forall|k: AccountId| self@.contains_key(k) <==> self.keys().contains(k),
    {
        let keys = self.keys();
        let dom = self@.dom();
        let top: nat = 0x1_0000_0000_0000_0000;
        lemma_keys_below(keys, dom, top);
        lemma_rank(keys, top);
        if rank(keys, top) < keys.len() {
            assert(keys[rank(keys, top) as int] >= top);
        }
        assert(keys.take(keys.len() as int) =~= keys);
        assert(keys.no_duplicates()) by {
            assert forall|i: int, j: int| 0 <= i < keys.len() && 0 <= j < keys.len() && i != j implies keys[i] != keys[j] by {
                if i < j {
                    assert(keys[i] < keys[j]);
                } else {
                    assert(keys[j] < keys[i]);
                }
            }
        }
        assert(keys.to_set() =~= dom);
        keys.unique_seq_to_set();
        vstd::seq_lib::seq_to_set_is_finite(keys);
    }

    /// The slot of an account holds what the view gives for it.
    proof fn lemma_slot(&self, i: int)
        requires
            self.wf(),
            0 <= i < self.slots@.len(),
        ensures
            self@.contains_key(self.slots@[i].account),
            self@[self.slots@[i].account] == self.slots@[i].value,
            self.keys()[i] == self.slots@[i].account,
    {
        let keys = self.keys();
        let k = keys[i];
        assert(keys.contains(k));
        let j = keys.index_of(k);
        assert(0 <= j < keys.len() && keys[j] == k);
        if j < i {
            assert(keys[j] < keys[i]);
        }
        if i < j {
            assert(keys[i] < keys[j]);
        }
    }

    /// A map without accounts.
    pub fn new() -> (map: AccountMap<V>)
        ensures
            map.wf(),
            map@ == Map::<AccountId, V>::empty(),
            map.keys() == Seq::<AccountId>::empty(),
    {
        let map = AccountMap { slots: Vec::new() };
        assert(map.keys() =~= Seq::<AccountId>::empty());
        assert(map@ =~= Map::<AccountId, V>::empty());
        map
    }

    /// The number of accounts in the map.
    pub fn len(&self) -> (n: usize)
        ensures
            n == self.keys().len(),
    {
        self.slots.len()
    }

    /// The account of the slot at `index`.
    pub fn account_at(&self, index: usize) -> (account: AccountId)
        requires
            self.wf(),
            index < self.keys().len(),
        ensures
            account == self.keys()[index as int],
            self@.contains_key(account),
    {
        proof {
            self.lemma_slot(index as int);
        }
        self.slots[index].account
    }

    /// The value of the slot at `index`.
    pub fn value_at(&self, index: usize) -> (value: &V)
        requires
            self.wf(),
            index < self.keys().len(),
        ensures
            self@.contains_key(self.keys()[index as int]),
            *value == self@[self.keys()[index as int]],
    {
        proof {
            self.lemma_slot(index as int);
        }
        &self.slots[index].value
    }

    /// The index of the first slot whose account is not below `account`, and
    /// whether that slot is the account's own.
    fn search(&self, account: AccountId) -> (res: (usize, bool))
        requires
            self.wf(),
        ensures
            res.0 <= self.slots@.len(),
            forall|i: int| 0 <= i < res.0 ==> self.slots@[i].account < account,
            forall|i: int| res.0 <= i < self.slots@.len() ==> self.slots@[i].account >= account,
            res.1 <==> res.0 < self.slots@.len() && self.slots@[res.0 as int].account == account,
            res.1 <==> self@.contains_key(account),
    {
        let mut low: usize = 0;
        let mut high: usize = self.slots.len();
        while low < high
            invariant
                self.wf(),
                low <= high <= self.slots@.len(),
                forall|i: int| 0 <= i < low ==> self.slots@[i].account < account,
                forall|i: int| high <= i < self.slots@.len() ==> self.slots@[i].account >= account,
            decreases high - low,
        {
            let mid: usize = low + (high - low) / 2;
            proof {
                assert forall|i: int| 0 <= i < self.slots@.len() implies self.keys()[i]
                    == self.slots@[i].account by {}
            }
            if self.slots[mid].account < account {
                proof {
                    assert forall|i: int| 0 <= i < mid + 1 implies self.slots@[i].account
                        < account by {
                        if i < mid {
                            assert(self.keys()[i] < self.keys()[mid as int]);
                        }
                    }
                }
                low = mid + 1;
            } else {
                proof {
                    assert forall|i: int| mid <= i < self.slots@.len() implies self.slots@[i].account
                        >= account by {
                        if mid < i {
                            assert(self.keys()[mid as int] < self.keys()[i]);
                        }
                    }
                }
                high = mid;
            }
        }
        let found = low < self.slots.len() && self.slots[low].account == account;
        proof {
            if found {
                self.lemma_slot(low as int);
            } else if self@.contains_key(account) {
                let j = self.keys().index_of(account);
                assert(0 <= j < self.keys().len() && self.keys()[j] == account);
                assert(self.slots@[j].account == account);
                assert(j >= low);
                if j > low {
                    assert(self.keys()[low as int] < self.keys()[j]);
                    assert(self.slots@[low as int].account >= account);
                }
            }
        }
        (low, found)
    }

    /// Whether the account has a value.
    pub fn contains_key(&self, account: AccountId) -> (found: bool)
        requires
            self.wf(),
        ensures
            found == self@.contains_key(account),
    {
        let (_, found) = self.search(account);
        found
    }

    /// The value of the account, if it has one.
    pub fn get(&self, account: AccountId) -> (value: Option<&V>)
        requires
            self.wf(),
        ensures
            match value {
                Some(v) => self@.contains_key(account) && *v == self@[account],
                None => !self@.contains_key(account),
            },
    {
        let (index, found) = self.search(account);
        if found {
            proof {
                self.lemma_slot(index as int);
            }
            Some(&self.slots[index].value)
        } else {
            None
        }
    }

    /// Gives the account the value, in place of the one it had, if any.
    pub fn insert(&mut self, account: AccountId, value: V)
        requires
            old(self).wf(),
        ensures
            final(self).wf(),
            final(self)@ == old(self)@.insert(account, value),
    {
        let (index, found) = self.search(account);
        let ghost before = *self;
        if found {
            self.slots.set(index, Slot { account, value });
            proof {
                assert(self.keys() =~= before.keys());
            }
        } else {
            self.slots.insert(index, Slot { account, value });
            proof {
                let keys = self.keys();
                assert forall|i: int, j: int| 0 <= i < j < keys.len() implies keys[i] < keys[j] by {
                    let a = if i < index { i } else { i - 1 };
                    let b = if j < index { j } else { j - 1 };
                    if i != index {
                        assert(keys[i] == before.keys()[a]);
                    }
                    if j != index {
                        assert(keys[j] == before.keys()[b]);
                    }
                    if i != index && j != index {
                        assert(before.keys()[a] < before.keys()[b]);
                    }
                }
            }
        }
        proof {
            let target = before@.insert(account, value);
            assert forall|k: AccountId| self@.contains_key(k) <==> target.contains_key(k) by {
                if self@.contains_key(k) {
                    let j = self.keys().index_of(k);
                    assert(0 <= j < self.keys().len() && self.keys()[j] == k);
                    if k != account {
                        let a = if found || j < index { j } else { j - 1 };
                        assert(before.keys()[a] == k);
                        assert(before.keys().contains(k));
                    }
                }
                if target.contains_key(k) {
                    if k == account {
                        assert(self.keys()[index as int] == k);
                    } else {
                        let j = before.keys().index_of(k);
                        assert(0 <= j < before.keys().len() && before.keys()[j] == k);
                        let a = if found || j < index { j } else { j + 1 };
                        assert(self.keys()[a] == k);
                    }
                }
            }
            assert forall|k: AccountId| self@.contains_key(k) implies self@[k] == target[k] by {
                let j = self.keys().index_of(k);
                assert(0 <= j < self.keys().len() && self.keys()[j] == k);
                self.lemma_slot(j);
                if k == account {
                    self.lemma_slot(index as int);
                } else {
                    let a = if found || j < index { j } else { j - 1 };
                    assert(before.keys()[a] == k);
                    before.lemma_slot(a);
                    assert(self.slots@[j] == before.slots@[a]);
                }
            }
            assert(self@ =~= target);
        }
    }

    /// Takes the account out of the map and hands back the value it had, if
    /// any.
    pub fn remove(&mut self, account: AccountId) -> (value: Option<V>)
        requires
            old(self).wf(),
        ensures
            final(self).wf(),
            final(self)@ == old(self)@.remove(account),
            match value {
                Some(v) => old(self)@.contains_key(account) && v == old(self)@[account],
                None => !old(self)@.contains_key(account),
            },
    {
        let (index, found) = self.search(account);
        let ghost before = *self;
        if !found {
            proof {
                assert(self@ =~= before@.remove(account));
            }
            return None;
        }
        proof {
            before.lemma_slot(index as int);
        }
        let slot = self.slots.remove(index);
        proof {
            let keys = self.keys();
            assert forall|i: int| 0 <= i < keys.len() implies keys[i] == before.keys()[if i
                < index {
                i
            } else {
                i + 1
            }] by {}
            assert forall|i: int, j: int| 0 <= i < j < keys.len() implies keys[i] < keys[j] by {
                let a = if i < index { i } else { i + 1 };
                let b = if j < index { j } else { j + 1 };
                assert(before.keys()[a] < before.keys()[b]);
            }
            let target = before@.remove(account);
            assert forall|k: AccountId| self@.contains_key(k) <==> target.contains_key(k) by {
                if self@.contains_key(k) {
                    let j = keys.index_of(k);
                    assert(0 <= j < keys.len() && keys[j] == k);
                    let a = if j < index { j } else { j + 1 };
                    assert(before.keys()[a] == k);
                    if a < index {
                        assert(before.keys()[a] < before.keys()[index as int]);
                    } else {
                        assert(before.keys()[index as int] < before.keys()[a]);
                    }
                    assert(before.keys().contains(k));
                }
                if target.contains_key(k) {
                    let j = before.keys().index_of(k);
                    assert(0 <= j < before.keys().len() && before.keys()[j] == k);
                    assert(j != index);
                    let a = if j < index { j } else { j - 1 };
                    assert(keys[a] == k);
                }
            }
            assert forall|k: AccountId| self@.contains_key(k) implies self@[k] == target[k] by {
                let j = keys.index_of(k);
                assert(0 <= j < keys.len() && keys[j] == k);
                self.lemma_slot(j);
                let a = if j < index { j } else { j + 1 };
                assert(before.keys()[a] == k);
                before.lemma_slot(a);
                assert(self.slots@[j] == before.slots@[a]);
            }
            assert(self@ =~= target);
        }
        Some(slot.value)
    }
}

} // verus!
