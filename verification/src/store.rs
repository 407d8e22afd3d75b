//! Exact-key associative stores with a "no entry reads as zero" default.
//!
//! The ledger keeps balances and allowances in these stores. An absent key
//! always reads as 0, mirroring a key-value substrate whose misses mean
//! "no entry". Entries are held as a vector of key-value pairs; the spec
//! functions [`lookup`] and [`entry_sum`] give the mathematical meaning of
//! a store's contents, and the lemmas here relate them to the two ways a
//! store changes (updating an existing entry, appending a fresh one).

use vstd::prelude::*;
use crate::account::{AccountId, AccountPair};

verus! {

/// The value recorded for key `k`: the value of the first entry whose key
/// is `k`, or 0 when there is none.
pub open spec fn lookup<K>(s: Seq<(K, u128)>, k: K) -> u128
    decreases s.len(),
{
    if s.len() == 0 {
        0
    } else if s[0].0 == k {
        s[0].1
    } else {
        lookup(s.drop_first(), k)
    }
}

/// The sum of all recorded values.
pub open spec fn entry_sum<K>(s: Seq<(K, u128)>) -> int
    decreases s.len(),
{
    if s.len() == 0 {
        0
    } else {
        s[0].1 + entry_sum(s.drop_first())
    }
}

/// No two entries share a key, so `entry_sum` is the sum of `lookup` over
/// exactly the keys that have an entry.
pub open spec fn keys_unique<K>(s: Seq<(K, u128)>) -> bool {
    forall|i: int, j: int| 0 <= i < j < s.len() ==> s[i].0 != s[j].0
}

proof fn lemma_lookup_absent<K>(s: Seq<(K, u128)>, k: K)
    requires
        forall|i: int| 0 <= i < s.len() ==> s[i].0 != k,
    ensures
        lookup(s, k) == 0,
    decreases s.len(),
{
    if s.len() > 0 {
        assert forall|i: int| 0 <= i < s.drop_first().len() implies s.drop_first()[i].0 != k by {
            assert(s.drop_first()[i] == s[i + 1]);
        }
        lemma_lookup_absent(s.drop_first(), k);
    }
}

proof fn lemma_lookup_first<K>(s: Seq<(K, u128)>, k: K, i: int)
    requires
        0 <= i < s.len(),
        s[i].0 == k,
        forall|j: int| 0 <= j < i ==> s[j].0 != k,
    ensures
        lookup(s, k) == s[i].1,
    decreases i,
{
    if i > 0 {
        assert forall|j: int| 0 <= j < i - 1 implies s.drop_first()[j].0 != k by {
            assert(s.drop_first()[j] == s[j + 1]);
        }
        assert(s.drop_first()[i - 1] == s[i]);
        lemma_lookup_first(s.drop_first(), k, i - 1);
    }
}

proof fn lemma_sum_update<K>(s: Seq<(K, u128)>, i: int, v: u128)
    requires
        0 <= i < s.len(),
    ensures
        entry_sum(s.update(i, (s[i].0, v))) == entry_sum(s) - s[i].1 + v,
    decreases s.len(),
{
    let t = s.update(i, (s[i].0, v));
    if i == 0 {
        assert(t.drop_first() =~= s.drop_first());
    } else {
        assert(t[0] == s[0]);
        assert(s.drop_first()[i - 1] == s[i]);
        assert(t.drop_first() =~= s.drop_first().update(i - 1, (s[i].0, v)));
        lemma_sum_update(s.drop_first(), i - 1, v);
    }
}

proof fn lemma_lookup_update<K>(s: Seq<(K, u128)>, i: int, v: u128, x: K)
    requires
        0 <= i < s.len(),
        forall|j: int| 0 <= j < i ==> s[j].0 != s[i].0,
    ensures
        lookup(s.update(i, (s[i].0, v)), x) == if x == s[i].0 {
            v
        } else {
            lookup(s, x)
        },
    decreases i,
{
    let t = s.update(i, (s[i].0, v));
    if i == 0 {
        assert(t[0] == (s[0].0, v));
        assert(t.drop_first() =~= s.drop_first());
    } else {
        assert(t[0] == s[0]);
        assert(s.drop_first()[i - 1] == s[i]);
        assert forall|j: int| #![trigger s.drop_first()[j]] 0 <= j < i - 1 implies
            s.drop_first()[j].0 != s.drop_first()[i - 1].0 by {
            assert(s.drop_first()[j] == s[j + 1]);
        }
        assert(t.drop_first() =~= s.drop_first().update(i - 1, (s[i].0, v)));
        lemma_lookup_update(s.drop_first(), i - 1, v, x);
    }
}

proof fn lemma_sum_push<K>(s: Seq<(K, u128)>, e: (K, u128))
    ensures
        entry_sum(s.push(e)) == entry_sum(s) + e.1,
    decreases s.len(),
{
    if s.len() == 0 {
        assert(s.push(e)[0] == e);
        assert(s.push(e).drop_first() =~= Seq::<(K, u128)>::empty());
        assert(entry_sum(Seq::<(K, u128)>::empty()) == 0);
    } else {
        assert(s.push(e)[0] == s[0]);
        assert(s.push(e).drop_first() =~= s.drop_first().push(e));
        lemma_sum_push(s.drop_first(), e);
    }
}

proof fn lemma_lookup_push_absent<K>(s: Seq<(K, u128)>, e: (K, u128), x: K)
    requires
        forall|i: int| 0 <= i < s.len() ==> s[i].0 != e.0,
    ensures
        lookup(s.push(e), x) == if x == e.0 {
            e.1
        } else {
            lookup(s, x)
        },
    decreases s.len(),
{
    if s.len() == 0 {
        assert(s.push(e)[0] == e);
        assert(s.push(e).drop_first() =~= Seq::<(K, u128)>::empty());
        assert(lookup(Seq::<(K, u128)>::empty(), x) == 0);
    } else {
        assert(s.push(e)[0] == s[0]);
        assert forall|i: int| 0 <= i < s.drop_first().len() implies s.drop_first()[i].0 != e.0 by {
            assert(s.drop_first()[i] == s[i + 1]);
        }
        assert(s.push(e).drop_first() =~= s.drop_first().push(e));
        lemma_lookup_push_absent(s.drop_first(), e, x);
    }
}

proof fn lemma_sum_nonneg<K>(s: Seq<(K, u128)>)
    ensures
        entry_sum(s) >= 0,
    decreases s.len(),
{
    if s.len() > 0 {
        lemma_sum_nonneg(s.drop_first());
    }
}

proof fn lemma_lookup_le_sum<K>(s: Seq<(K, u128)>, k: K)
    ensures
        lookup(s, k) <= entry_sum(s),
    decreases s.len(),
{
    if s.len() == 0 {
    } else if s[0].0 == k {
        lemma_sum_nonneg(s.drop_first());
    } else {
        lemma_lookup_le_sum(s.drop_first(), k);
    }
}

/// Per-account balances: an exact-key store whose misses read as balance 0.
pub struct BalanceStore {
    entries: Vec<(AccountId, u128)>,
}

impl BalanceStore {
    /// The entries as a mathematical sequence.
    pub closed spec fn entries_seq(self) -> Seq<(AccountId, u128)> {
        self.entries@
    }

    /// The balance recorded for `k`; 0 when `k` has no entry.
    pub open spec fn spec_get(self, k: AccountId) -> u128 {
        lookup(self.entries_seq(), k)
    }

    /// The sum of all recorded balances.
    pub open spec fn total(self) -> int {
        entry_sum(self.entries_seq())
    }

    /// Each account has at most one entry, so `total` is the sum of
    /// `spec_get` over the accounts that have an entry; every other
    /// account's balance is 0.
    pub open spec fn wf(self) -> bool {
        keys_unique(self.entries_seq())
    }

    /// An empty store: every account reads as 0.
    pub fn new() -> (r: Self)
        ensures
            r.wf(),
            r.total() == 0,
            forall|k: AccountId| r.spec_get(k) == 0,
    {
        BalanceStore { entries: Vec::new() }
    }

    fn find(&self, k: AccountId) -> (r: Option<usize>)
        ensures
            match r {
                Some(i) => 0 <= i < self.entries@.len() && self.entries@[i as int].0 == k
                    && forall|j: int| 0 <= j < i ==> self.entries@[j].0 != k,
                None => forall|j: int| 0 <= j < self.entries@.len() ==> self.entries@[j].0 != k,
            },
    {
        let n = self.entries.len();
        let mut i: usize = 0;
        while i < n
            invariant
                n == self.entries@.len(),
                0 <= i <= n,
                forall|j: int| 0 <= j < i ==> self.entries@[j].0 != k,
            decreases n - i,
        {
            if self.entries[i].0 == k {
                return Some(i);
            }
            i = i + 1;
        }
        None
    }

    /// The balance of `k`, or 0 when `k` has no entry.
    pub fn get(&self, k: AccountId) -> (r: u128)
        ensures
            r == self.spec_get(k),
    {
        match self.find(k) {
            Some(i) => {
                proof {
                    lemma_lookup_first(self.entries@, k, i as int);
                }
                self.entries[i].1
            },
            None => {
                proof {
                    lemma_lookup_absent(self.entries@, k);
                }
                0
            },
        }
    }

    /// Records `v` as the balance of `k`, replacing any earlier entry.
    pub fn set(&mut self, k: AccountId, v: u128)
        ensures
            forall|x: AccountId| final(self).spec_get(x) == if x == k {
                v
            } else {
                old(self).spec_get(x)
            },
            final(self).total() == old(self).total() - old(self).spec_get(k) + v,
            old(self).wf() ==> final(self).wf(),
    {
        let ghost s0 = self.entries@;
        match self.find(k) {
            Some(i) => {
                self.entries.set(i, (k, v));
                proof {
                    let s1 = self.entries@;
                    lemma_lookup_first(s0, k, i as int);
                    lemma_sum_update(s0, i as int, v);
                    assert forall|x: AccountId| self.spec_get(x) == (if x == k {
                        v
                    } else {
                        lookup(s0, x)
                    }) by {
                        lemma_lookup_update(s0, i as int, v, x);
                    }
                    if keys_unique(s0) {
                        assert forall|p: int, q: int| 0 <= p < q < s1.len() implies
                            s1[p].0 != s1[q].0 by {
                            assert(s1[p].0 == s0[p].0);
                            assert(s1[q].0 == s0[q].0);
                        }
                    }
                }
            },
            None => {
                self.entries.push((k, v));
                proof {
                    let s1 = self.entries@;
                    lemma_lookup_absent(s0, k);
                    lemma_sum_push(s0, (k, v));
                    assert forall|x: AccountId| self.spec_get(x) == (if x == k {
                        v
                    } else {
                        lookup(s0, x)
                    }) by {
                        lemma_lookup_push_absent(s0, (k, v), x);
                    }
                    if keys_unique(s0) {
                        assert forall|p: int, q: int| 0 <= p < q < s1.len() implies
                            s1[p].0 != s1[q].0 by {
                            assert(s1[p] == if p < s0.len() { s0[p] } else { (k, v) });
                            assert(s1[q] == if q < s0.len() { s0[q] } else { (k, v) });
                        }
                    }
                }
            },
        }
    }

    /// Every balance is bounded by the sum of all balances.
    pub proof fn lemma_get_le_total(self, k: AccountId)
        ensures
            0 <= self.spec_get(k) <= self.total(),
    {
        lemma_lookup_le_sum(self.entries_seq(), k);
        lemma_sum_nonneg(self.entries_seq());
    }
}

/// Per-(owner, spender) allowances: an exact-key store whose misses read
/// as allowance 0.
pub struct AllowanceStore {
    entries: Vec<(AccountPair, u128)>,
}

impl AllowanceStore {
    /// The entries as a mathematical sequence.
    pub closed spec fn entries_seq(self) -> Seq<(AccountPair, u128)> {
        self.entries@
    }

    /// The allowance recorded for `k`; 0 when `k` has no entry.
    pub open spec fn spec_get(self, k: AccountPair) -> u128 {
        lookup(self.entries_seq(), k)
    }

    /// Each (owner, spender) pair has at most one entry.
    pub open spec fn wf(self) -> bool {
        keys_unique(self.entries_seq())
    }

    /// An empty store: every pair reads as 0.
    pub fn new() -> (r: Self)
        ensures
            r.wf(),
            forall|k: AccountPair| r.spec_get(k) == 0,
    {
        AllowanceStore { entries: Vec::new() }
    }

    fn find(&self, k: AccountPair) -> (r: Option<usize>)
        ensures
            match r {
                Some(i) => 0 <= i < self.entries@.len() && self.entries@[i as int].0 == k
                    && forall|j: int| 0 <= j < i ==> self.entries@[j].0 != k,
                None => forall|j: int| 0 <= j < self.entries@.len() ==> self.entries@[j].0 != k,
            },
    {
        let n = self.entries.len();
        let mut i: usize = 0;
        while i < n
            invariant
                n == self.entries@.len(),
                0 <= i <= n,
                forall|j: int| 0 <= j < i ==> self.entries@[j].0 != k,
            decreases n - i,
        {
            if self.entries[i].0 == k {
                return Some(i);
            }
            i = i + 1;
        }
        None
    }

    /// The allowance of `k`, or 0 when `k` has no entry.
    pub fn get(&self, k: AccountPair) -> (r: u128)
        ensures
            r == self.spec_get(k),
    {
        match self.find(k) {
            Some(i) => {
                proof {
                    lemma_lookup_first(self.entries@, k, i as int);
                }
                self.entries[i].1
            },
            None => {
                proof {
                    lemma_lookup_absent(self.entries@, k);
                }
                0
            },
        }
    }

    /// Records `v` as the allowance of `k`, replacing any earlier entry.
    pub fn set(&mut self, k: AccountPair, v: u128)
        ensures
            forall|x: AccountPair| final(self).spec_get(x) == if x == k {
                v
            } else {
                old(self).spec_get(x)
            },
            old(self).wf() ==> final(self).wf(),
    {
        let ghost s0 = self.entries@;
        match self.find(k) {
            Some(i) => {
                self.entries.set(i, (k, v));
                proof {
                    let s1 = self.entries@;
                    assert forall|x: AccountPair| self.spec_get(x) == (if x == k {
                        v
                    } else {
                        lookup(s0, x)
                    }) by {
                        lemma_lookup_update(s0, i as int, v, x);
                    }
                    if keys_unique(s0) {
                        assert forall|p: int, q: int| 0 <= p < q < s1.len() implies
                            s1[p].0 != s1[q].0 by {
                            assert(s1[p].0 == s0[p].0);
                            assert(s1[q].0 == s0[q].0);
                        }
                    }
                }
            },
            None => {
                self.entries.push((k, v));
                proof {
                    let s1 = self.entries@;
                    assert forall|x: AccountPair| self.spec_get(x) == (if x == k {
                        v
                    } else {
                        lookup(s0, x)
                    }) by {
                        lemma_lookup_push_absent(s0, (k, v), x);
                    }
                    if keys_unique(s0) {
                        assert forall|p: int, q: int| 0 <= p < q < s1.len() implies
                            s1[p].0 != s1[q].0 by {
                            assert(s1[p] == if p < s0.len() { s0[p] } else { (k, v) });
                            assert(s1[q] == if q < s0.len() { s0[q] } else { (k, v) });
                        }
                    }
                }
            },
        }
    }
}

} // verus!
