//! The keyed balance store: a persistent mapping from a key to an unsigned
//! integer, kept as an association list with pairwise-distinct keys.
//!
//! Three instantiations serve the two ledgers: account balances
//! ([`BalanceStore`]), delegated-spending allowances keyed by an
//! owner/spender pair ([`AllowanceStore`]), and pool credits
//! ([`CreditStore`]). Each is viewed in contracts as a `Map` from key to
//! value; [`BalanceStore`] additionally exposes the total of all stored
//! values, which the conservation arguments of the token ledger rest on.

use vstd::prelude::*;

verus! {

/// The map an association list denotes; a later entry for a key shadows an
/// earlier one (no shadowing ever arises under [`distinct_keys`]).
pub open spec fn map_of<K, V>(s: Seq<(K, V)>) -> Map<K, V>
    decreases s.len(),
{
    if s.len() == 0 {
        Map::empty()
    } else {
        map_of(s.drop_last()).insert(s.last().0, s.last().1)
    }
}

/// No key occurs twice in the list.
pub open spec fn distinct_keys<K, V>(s: Seq<(K, V)>) -> bool {
    forall|i: int, j: int| 0 <= i < j < s.len() ==> s[i].0 != s[j].0
}

/// The total of all values stored in the list.
pub open spec fn total_of(s: Seq<(u128, u128)>) -> int
    decreases s.len(),
{
    if s.len() == 0 {
        0
    } else {
        total_of(s.drop_last()) + s.last().1
    }
}

/// A key is in the denoted map exactly when some entry carries it.
pub proof fn lemma_map_of_domain<K, V>(s: Seq<(K, V)>, k: K)
    ensures
        map_of(s).contains_key(k) <==> exists|i: int| 0 <= i < s.len() && s[i].0 == k,
    decreases s.len(),
{
    if s.len() > 0 {
        lemma_map_of_domain(s.drop_last(), k);
        if s.last().0 == k {
            assert(s[s.len() - 1].0 == k);
        } else {
            if map_of(s).contains_key(k) {
                let i = choose|i: int|
                    0 <= i < s.drop_last().len() && s.drop_last()[i].0 == k;
                assert(s[i].0 == k);
            }
            if exists|i: int| 0 <= i < s.len() && s[i].0 == k {
                let i = choose|i: int| 0 <= i < s.len() && s[i].0 == k;
                assert(s.drop_last()[i].0 == k);
            }
        }
    }
}

/// Under distinct keys, the entry at any index gives the denoted map's value
/// for that entry's key.
pub proof fn lemma_map_of_index<K, V>(s: Seq<(K, V)>, i: int)
    requires
        distinct_keys(s),
        0 <= i < s.len(),
    ensures
        map_of(s).contains_key(s[i].0),
        map_of(s)[s[i].0] == s[i].1,
    decreases s.len(),
{
    if i < s.len() - 1 {
        assert(distinct_keys(s.drop_last()));
        assert(s.drop_last()[i] == s[i]);
        lemma_map_of_index(s.drop_last(), i);
        assert(s.last().0 != s[i].0);
    }
}

/// Replacing the value at an index updates the denoted map at that key.
pub proof fn lemma_map_of_update<K, V>(s: Seq<(K, V)>, i: int, v: V)
    requires
        distinct_keys(s),
        0 <= i < s.len(),
    ensures
        map_of(s.update(i, (s[i].0, v))) == map_of(s).insert(s[i].0, v),
    decreases s.len(),
{
    let t = s.update(i, (s[i].0, v));
    if i == s.len() - 1 {
        assert(t.drop_last() =~= s.drop_last());
        assert(map_of(t) =~= map_of(s).insert(s[i].0, v));
    } else {
        assert(distinct_keys(s.drop_last()));
        assert(s.drop_last()[i] == s[i]);
        lemma_map_of_update(s.drop_last(), i, v);
        assert(t.drop_last() =~= s.drop_last().update(i, (s[i].0, v)));
        assert(s.last().0 != s[i].0);
        assert(map_of(t) =~= map_of(s).insert(s[i].0, v));
    }
}

/// Appending an entry inserts its key into the denoted map.
pub proof fn lemma_map_of_push<K, V>(s: Seq<(K, V)>, k: K, v: V)
    ensures
        map_of(s.push((k, v))) == map_of(s).insert(k, v),
{
    assert(s.push((k, v)).drop_last() =~= s);
}

/// Replacing the value at an index shifts the total by the difference.
pub proof fn lemma_total_update(s: Seq<(u128, u128)>, i: int, v: u128)
    requires
        0 <= i < s.len(),
    ensures
        total_of(s.update(i, (s[i].0, v))) == total_of(s) - s[i].1 + v,
    decreases s.len(),
{
    let t = s.update(i, (s[i].0, v));
    if i == s.len() - 1 {
        assert(t.drop_last() =~= s.drop_last());
    } else {
        assert(s.drop_last()[i] == s[i]);
        lemma_total_update(s.drop_last(), i, v);
        assert(t.drop_last() =~= s.drop_last().update(i, (s[i].0, v)));
        assert(t.last() == s.last());
    }
}

/// Appending an entry adds its value to the total.
pub proof fn lemma_total_push(s: Seq<(u128, u128)>, p: (u128, u128))
    ensures
        total_of(s.push(p)) == total_of(s) + p.1,
{
    assert(s.push(p).drop_last() =~= s);
}

/// All values being non-negative, so is their total.
pub proof fn lemma_total_nonneg(s: Seq<(u128, u128)>)
    ensures
        total_of(s) >= 0,
    decreases s.len(),
{
    if s.len() > 0 {
        lemma_total_nonneg(s.drop_last());
    }
}

/// The total dominates any single entry's value.
pub proof fn lemma_total_entry(s: Seq<(u128, u128)>, i: int)
    requires
        0 <= i < s.len(),
    ensures
        total_of(s) >= s[i].1,
    decreases s.len(),
{
    if i == s.len() - 1 {
        lemma_total_nonneg(s.drop_last());
    } else {
        assert(s.drop_last()[i] == s[i]);
        lemma_total_entry(s.drop_last(), i);
    }
}

/// The total dominates the values of any two distinct entries together.
pub proof fn lemma_total_pair(s: Seq<(u128, u128)>, i: int, j: int)
    requires
        0 <= i < j < s.len(),
    ensures
        total_of(s) >= s[i].1 + s[j].1,
    decreases s.len(),
{
    if j == s.len() - 1 {
        assert(s.drop_last()[i] == s[i]);
        lemma_total_entry(s.drop_last(), i);
    } else {
        assert(s.drop_last()[i] == s[i]);
        assert(s.drop_last()[j] == s[j]);
        lemma_total_pair(s.drop_last(), i, j);
    }
}

/// Account balances: a store from account to a 128-bit balance.
pub struct BalanceStore {
    entries: Vec<(u128, u128)>,
}

impl View for BalanceStore {
    type V = Map<u128, u128>;

    closed spec fn view(&self) -> Map<u128, u128> {
        map_of(self.entries@)
    }
}

impl BalanceStore {
    /// Keys are pairwise distinct, so the association list and its map view
    /// agree entry by entry.
    pub closed spec fn wf(self) -> bool {
        distinct_keys(self.entries@)
    }

    /// The total of all stored balances.
    pub closed spec fn total(self) -> int {
        total_of(self.entries@)
    }

    /// An empty store.
    pub fn new() -> (r: Self)
        ensures
            r.wf(),
            r@ == Map::<u128, u128>::empty(),
            r.total() == 0,
    {
        BalanceStore { entries: Vec::new() }
    }

    /// The total of all balances is never negative.
    pub proof fn lemma_total_nonneg(self)
        ensures
            self.total() >= 0,
    {
        lemma_total_nonneg(self.entries@);
    }

    /// The total covers any single stored balance.
    pub proof fn lemma_total_covers(self, k: u128)
        requires
            self.wf(),
            self@.contains_key(k),
        ensures
            self@[k] <= self.total(),
    {
        lemma_map_of_domain(self.entries@, k);
        let i = choose|i: int| 0 <= i < self.entries@.len() && self.entries@[i].0 == k;
        lemma_map_of_index(self.entries@, i);
        lemma_total_entry(self.entries@, i);
    }

    /// The total covers any two distinct stored balances together.
    pub proof fn lemma_total_covers_pair(self, k1: u128, k2: u128)
        requires
            self.wf(),
            self@.contains_key(k1),
            self@.contains_key(k2),
            k1 != k2,
        ensures
            self@[k1] + self@[k2] <= self.total(),
    {
        lemma_map_of_domain(self.entries@, k1);
        lemma_map_of_domain(self.entries@, k2);
        let i = choose|i: int| 0 <= i < self.entries@.len() && self.entries@[i].0 == k1;
        let j = choose|j: int| 0 <= j < self.entries@.len() && self.entries@[j].0 == k2;
        lemma_map_of_index(self.entries@, i);
        lemma_map_of_index(self.entries@, j);
        if i < j {
            lemma_total_pair(self.entries@, i, j);
        } else {
            lemma_total_pair(self.entries@, j, i);
        }
    }

    /// Look a key up; `None` when the key has never been written.
    pub fn get(&self, key: u128) -> (r: Option<u128>)
        requires
            self.wf(),
        ensures
            r == if self@.contains_key(key) {
                Some(self@[key])
            } else {
                None::<u128>
            },
    {
        let n: usize = self.entries.len();
        let mut i: usize = 0;
        while i < n
            invariant
                n == self.entries@.len(),
                i <= n,
                self.wf(),
                forall|j: int| 0 <= j < i ==> self.entries@[j].0 != key,
            decreases n - i,
        {
            let e: (u128, u128) = self.entries[i];
            if e.0 == key {
                proof {
                    lemma_map_of_index(self.entries@, i as int);
                }
                return Some(e.1);
            }
            i += 1;
        }
        proof {
            lemma_map_of_domain(self.entries@, key);
        }
        None
    }

    /// Write a value for a key, replacing any earlier one.
    pub fn insert(&mut self, key: u128, value: u128)
        requires
            old(self).wf(),
        ensures
            final(self).wf(),
            final(self)@ == old(self)@.insert(key, value),
            final(self).total() == old(self).total() + value - (if old(
                self,
            )@.contains_key(key) {
                old(self)@[key]
            } else {
                0
            }),
    {
        let n: usize = self.entries.len();
        let mut i: usize = 0;
        while i < n
            invariant
                n == self.entries@.len(),
                i <= n,
                self == old(self),
                self.wf(),
                forall|j: int| 0 <= j < i ==> self.entries@[j].0 != key,
            decreases n - i,
        {
            let e: (u128, u128) = self.entries[i];
            if e.0 == key {
                proof {
                    lemma_map_of_index(self.entries@, i as int);
                    lemma_map_of_update(self.entries@, i as int, value);
                    lemma_total_update(self.entries@, i as int, value);
                }
                let ghost pre = self.entries@;
                self.entries.set(i, (key, value));
                proof {
                    assert(self.entries@ == pre.update(i as int, (key, value)));
                    assert forall|a: int, b: int|
                        0 <= a < b < self.entries@.len() implies self.entries@[a].0
                        != self.entries@[b].0 by {
                        assert(pre[a].0 == self.entries@[a].0);
                        assert(pre[b].0 == self.entries@[b].0);
                    }
                }
                return ;
            }
            i += 1;
        }
        proof {
            lemma_map_of_domain(self.entries@, key);
            lemma_map_of_push(self.entries@, key, value);
            lemma_total_push(self.entries@, (key, value));
        }
        let ghost pre = self.entries@;
        self.entries.push((key, value));
        proof {
            assert forall|a: int, b: int|
                0 <= a < b < self.entries@.len() implies self.entries@[a].0
                != self.entries@[b].0 by {
                if b < pre.len() {
                    assert(pre[a].0 != pre[b].0);
                } else {
                    assert(pre[a].0 != key);
                }
            }
        }
    }
}

/// Delegated-spending allowances: a store from an (owner, spender) pair to a
/// 128-bit allowance.
pub struct AllowanceStore {
    entries: Vec<((u128, u128), u128)>,
}

impl View for AllowanceStore {
    type V = Map<(u128, u128), u128>;

    closed spec fn view(&self) -> Map<(u128, u128), u128> {
        map_of(self.entries@)
    }
}

impl AllowanceStore {
    /// Keys are pairwise distinct, so the association list and its map view
    /// agree entry by entry.
    pub closed spec fn wf(self) -> bool {
        distinct_keys(self.entries@)
    }

    /// An empty store.
    pub fn new() -> (r: Self)
        ensures
            r.wf(),
            r@ == Map::<(u128, u128), u128>::empty(),
    {
        AllowanceStore { entries: Vec::new() }
    }

    /// Look an owner/spender pair up; `None` when it has never been written.
    pub fn get(&self, owner: u128, spender: u128) -> (r: Option<u128>)
        requires
            self.wf(),
        ensures
            r == if self@.contains_key((owner, spender)) {
                Some(self@[(owner, spender)])
            } else {
                None::<u128>
            },
    {
        let n: usize = self.entries.len();
        let mut i: usize = 0;
        while i < n
            invariant
                n == self.entries@.len(),
                i <= n,
                self.wf(),
                forall|j: int| 0 <= j < i ==> self.entries@[j].0 != (owner, spender),
            decreases n - i,
        {
            let e: ((u128, u128), u128) = self.entries[i];
            if e.0.0 == owner && e.0.1 == spender {
                proof {
                    assert(self.entries@[i as int].0 == (owner, spender));
                    lemma_map_of_index(self.entries@, i as int);
                }
                return Some(e.1);
            }
            i += 1;
        }
        proof {
            lemma_map_of_domain(self.entries@, (owner, spender));
        }
        None
    }

    /// Write an allowance for a pair, replacing any earlier one.
    pub fn insert(&mut self, owner: u128, spender: u128, value: u128)
        requires
            old(self).wf(),
        ensures
            final(self).wf(),
            final(self)@ == old(self)@.insert((owner, spender), value),
    {
        let n: usize = self.entries.len();
        let mut i: usize = 0;
        while i < n
            invariant
                n == self.entries@.len(),
                i <= n,
                self == old(self),
                self.wf(),
                forall|j: int| 0 <= j < i ==> self.entries@[j].0 != (owner, spender),
            decreases n - i,
        {
            let e: ((u128, u128), u128) = self.entries[i];
            if e.0.0 == owner && e.0.1 == spender {
                proof {
                    assert(self.entries@[i as int].0 == (owner, spender));
                    lemma_map_of_update(self.entries@, i as int, value);
                }
                let ghost pre = self.entries@;
                self.entries.set(i, ((owner, spender), value));
                proof {
                    assert(self.entries@ == pre.update(i as int, ((owner, spender), value)));
                    assert forall|a: int, b: int|
                        0 <= a < b < self.entries@.len() implies self.entries@[a].0
                        != self.entries@[b].0 by {
                        assert(pre[a].0 == self.entries@[a].0);
                        assert(pre[b].0 == self.entries@[b].0);
                    }
                }
                return ;
            }
            i += 1;
        }
        proof {
            lemma_map_of_push(self.entries@, (owner, spender), value);
        }
        let ghost pre = self.entries@;
        self.entries.push(((owner, spender), value));
        proof {
            assert forall|a: int, b: int|
                0 <= a < b < self.entries@.len() implies self.entries@[a].0
                != self.entries@[b].0 by {
                if b < pre.len() {
                    assert(pre[a].0 != pre[b].0);
                } else {
                    assert(pre[a].0 != (owner, spender));
                }
            }
        }
    }
}

/// Pool credits: a store from account to a 64-bit credit balance.
pub struct CreditStore {
    entries: Vec<(u128, u64)>,
}

impl View for CreditStore {
    type V = Map<u128, u64>;

    closed spec fn view(&self) -> Map<u128, u64> {
        map_of(self.entries@)
    }
}

impl CreditStore {
    /// Keys are pairwise distinct, so the association list and its map view
    /// agree entry by entry.
    pub closed spec fn wf(self) -> bool {
        distinct_keys(self.entries@)
    }

    /// An empty store.
    pub fn new() -> (r: Self)
        ensures
            r.wf(),
            r@ == Map::<u128, u64>::empty(),
    {
        CreditStore { entries: Vec::new() }
    }

    /// Look a key up; `None` when the key has never been written.
    pub fn get(&self, key: u128) -> (r: Option<u64>)
        requires
            self.wf(),
        ensures
            r == if self@.contains_key(key) {
                Some(self@[key])
            } else {
                None::<u64>
            },
    {
        let n: usize = self.entries.len();
        let mut i: usize = 0;
        while i < n
            invariant
                n == self.entries@.len(),
                i <= n,
                self.wf(),
                forall|j: int| 0 <= j < i ==> self.entries@[j].0 != key,
            decreases n - i,
        {
            let e: (u128, u64) = self.entries[i];
            if e.0 == key {
                proof {
                    lemma_map_of_index(self.entries@, i as int);
                }
                return Some(e.1);
            }
            i += 1;
        }
        proof {
            lemma_map_of_domain(self.entries@, key);
        }
        None
    }

    /// Write a credit for a key, replacing any earlier one.
    pub fn insert(&mut self, key: u128, value: u64)
        requires
            old(self).wf(),
        ensures
            final(self).wf(),
            final(self)@ == old(self)@.insert(key, value),
    {
        let n: usize = self.entries.len();
        let mut i: usize = 0;
        while i < n
            invariant
                n == self.entries@.len(),
                i <= n,
                self == old(self),
                self.wf(),
                forall|j: int| 0 <= j < i ==> self.entries@[j].0 != key,
            decreases n - i,
        {
            let e: (u128, u64) = self.entries[i];
            if e.0 == key {
                proof {
                    lemma_map_of_update(self.entries@, i as int, value);
                }
                let ghost pre = self.entries@;
                self.entries.set(i, (key, value));
                proof {
                    assert(self.entries@ == pre.update(i as int, (key, value)));
                    assert forall|a: int, b: int|
                        0 <= a < b < self.entries@.len() implies self.entries@[a].0
                        != self.entries@[b].0 by {
                        assert(pre[a].0 == self.entries@[a].0);
                        assert(pre[b].0 == self.entries@[b].0);
                    }
                }
                return ;
            }
            i += 1;
        }
        proof {
            lemma_map_of_push(self.entries@, key, value);
        }
        let ghost pre = self.entries@;
        self.entries.push((key, value));
        proof {
            assert forall|a: int, b: int|
                0 <= a < b < self.entries@.len() implies self.entries@[a].0
                != self.entries@[b].0 by {
                if b < pre.len() {
                    assert(pre[a].0 != pre[b].0);
                } else {
                    assert(pre[a].0 != key);
                }
            }
        }
    }
}

} // verus!
