//! A table from keys to amounts, kept as a vector of entries with distinct keys,
//! and the sum of the amounts of a finite map.
use vstd::prelude::*;

use crate::address::Address;
use crate::u256::{lemma_u256_range, u256_max, U256};

verus! {

/// Keys that can be compared for equality in executable code.
pub trait TableKey: Sized {
    /// Whether `self` and `other` are the same key.
    fn key_eq(&self, other: &Self) -> (r: bool)
        ensures
            r == (*self == *other),
    ;
}

impl TableKey for Address {
    fn key_eq(&self, other: &Self) -> (r: bool) {
        self.same(other)
    }
}

impl TableKey for (Address, Address) {
    fn key_eq(&self, other: &Self) -> (r: bool) {
        self.0.same(&other.0) && self.1.same(&other.1)
    }
}

/// The amount a map gives `k`, where a key that is absent has amount zero.
pub open spec fn amount_of<K>(m: Map<K, nat>, k: K) -> nat {
    if m.contains_key(k) {
        m[k]
    } else {
        0
    }
}

/// The sum of all amounts of a finite map.
pub open spec fn map_sum<K>(m: Map<K, nat>) -> nat
    decreases m.dom().len(),
{
    if m.dom().finite() && m.dom().len() > 0 {
        let k = m.dom().choose();
        m[k] + map_sum(m.remove(k))
    } else {
        0
    }
}

/// The sum of a finite map is any one of its amounts plus the sum of the rest.
pub proof fn lemma_map_sum_remove<K>(m: Map<K, nat>, k: K)
    requires
        m.dom().finite(),
        m.contains_key(k),
    ensures
        map_sum(m) == m[k] + map_sum(m.remove(k)),
    decreases m.dom().len(),
{
    let c = m.dom().choose();
    if c != k {
        let mc = m.remove(c);
        let mk = m.remove(k);
        lemma_map_sum_remove(mc, k);
        lemma_map_sum_remove(mk, c);
        assert(mc.remove(k) =~= mk.remove(c));
    } else {
        assert(m.remove(c) =~= m.remove(k));
    }
}

/// Setting the amount of `k` to `v` changes the sum by the difference.
pub proof fn lemma_map_sum_insert<K>(m: Map<K, nat>, k: K, v: nat)
    requires
        m.dom().finite(),
    ensures
        map_sum(m.insert(k, v)) + amount_of(m, k) == map_sum(m) + v,
{
    let m2 = m.insert(k, v);
    lemma_map_sum_remove(m2, k);
    assert(m2.remove(k) =~= m.remove(k));
    if m.contains_key(k) {
        lemma_map_sum_remove(m, k);
    } else {
        assert(m.remove(k) =~= m);
    }
}

/// No amount of a finite map is larger than its sum.
pub proof fn lemma_map_sum_bounds<K>(m: Map<K, nat>, a: K)
    requires
        m.dom().finite(),
    ensures
        amount_of(m, a) <= map_sum(m),
{
    if m.contains_key(a) {
        lemma_map_sum_remove(m, a);
    }
}

/// Two distinct keys together hold no more than the sum of a finite map.
pub proof fn lemma_map_sum_two<K>(m: Map<K, nat>, a: K, b: K)
    requires
        m.dom().finite(),
        a != b,
    ensures
        amount_of(m, a) + amount_of(m, b) <= map_sum(m),
{
    if m.contains_key(a) {
        lemma_map_sum_remove(m, a);
        lemma_map_sum_bounds(m.remove(a), b);
        assert(amount_of(m.remove(a), b) == amount_of(m, b));
    } else {
        lemma_map_sum_bounds(m, b);
    }
}

/// The map that a sequence of entries stands for: later entries win.
pub open spec fn entries_view<K>(s: Seq<(K, U256)>) -> Map<K, nat>
    decreases s.len(),
{
    if s.len() == 0 {
        Map::empty()
    } else {
        entries_view(s.drop_last()).insert(s.last().0, s.last().1@)
    }
}

/// No key occurs twice among the entries.
pub open spec fn distinct_keys<K>(s: Seq<(K, U256)>) -> bool {
    forall|i: int, j: int| 0 <= i < j < s.len() ==> s[i].0 != s[j].0
}

proof fn lemma_entries_fit<K>(s: Seq<(K, U256)>, k: K)
    ensures
        amount_of(entries_view(s), k) <= u256_max(),
    decreases s.len(),
{
    if s.len() > 0 {
        lemma_entries_fit(s.drop_last(), k);
        lemma_u256_range(s.last().1);
    }
}

proof fn lemma_entries_absent<K>(s: Seq<(K, U256)>, k: K)
    requires
        forall|j: int| 0 <= j < s.len() ==> s[j].0 != k,
    ensures
        !entries_view(s).contains_key(k),
    decreases s.len(),
{
    if s.len() > 0 {
        lemma_entries_absent(s.drop_last(), k);
    }
}

proof fn lemma_entries_at<K>(s: Seq<(K, U256)>, i: int)
    requires
        distinct_keys(s),
        0 <= i < s.len(),
    ensures
        entries_view(s).contains_key(s[i].0),
        entries_view(s)[s[i].0] == s[i].1@,
    decreases s.len(),
{
    if i < s.len() - 1 {
        lemma_entries_at(s.drop_last(), i);
    }
}

proof fn lemma_entries_update<K>(s: Seq<(K, U256)>, i: int, w: U256)
    requires
        distinct_keys(s),
        0 <= i < s.len(),
    ensures
        entries_view(s.update(i, (s[i].0, w))) =~= entries_view(s).insert(s[i].0, w@),
    decreases s.len(),
{
    let s2 = s.update(i, (s[i].0, w));
    if i == s.len() - 1 {
        assert(s2.drop_last() =~= s.drop_last());
    } else {
        assert(s2.drop_last() =~= s.drop_last().update(i, (s[i].0, w)));
        lemma_entries_update(s.drop_last(), i, w);
    }
}

/// A table from keys to amounts.
pub struct Table<K> {
    entries: Vec<(K, U256)>,
}

impl<K> View for Table<K> {
    type V = Map<K, nat>;

    closed spec fn view(&self) -> Map<K, nat> {
        entries_view(self.entries@)
    }
}

impl<K: TableKey> Table<K> {
    /// The table holds no key twice.
    pub closed spec fn wf(&self) -> bool {
        distinct_keys(self.entries@)
    }

    /// Every amount in a table fits in 256 bits.
    pub proof fn lemma_amounts_fit(&self, k: K)
        ensures
            amount_of(self@, k) <= u256_max(),
    {
        lemma_entries_fit(self.entries@, k);
    }

    /// An empty table.
    pub fn new() -> (r: Table<K>)
        ensures
            r.wf(),
            r@ == Map::<K, nat>::empty(),
    {
        let r = Table { entries: Vec::new() };
        assert(r@ =~= Map::<K, nat>::empty());
        r
    }

    /// The amount stored for `k`, or zero where there is none.
    pub fn get(&self, k: &K) -> (r: U256)
        requires
            self.wf(),
        ensures
            r@ == amount_of(self@, *k),
    {
        let n = self.entries.len();
        let mut i: usize = 0;
        while i < n
            invariant
                n == self.entries@.len(),
                i <= n,
                self.wf(),
                forall|j: int| 0 <= j < i ==> self.entries@[j].0 != *k,
            decreases n - i,
        {
            if self.entries[i].0.key_eq(k) {
                proof {
                    lemma_entries_at(self.entries@, i as int);
                }
                return self.entries[i].1;
            }
            i = i + 1;
        }
        proof {
            lemma_entries_absent(self.entries@, *k);
        }
        U256::zero()
    }

    /// Stores `v` for `k`, in place of what was stored for it.
    pub fn insert(&mut self, k: K, v: U256)
        requires
            old(self).wf(),
        ensures
            final(self).wf(),
            final(self)@ == old(self)@.insert(k, v@),
    {
        let n = self.entries.len();
        let mut i: usize = 0;
        while i < n
            invariant
                n == self.entries@.len(),
                i <= n,
                self.entries@ == old(self).entries@,
                distinct_keys(self.entries@),
                forall|j: int| 0 <= j < i ==> self.entries@[j].0 != k,
            decreases n - i,
        {
            if self.entries[i].0.key_eq(&k) {
                proof {
                    lemma_entries_update(self.entries@, i as int, v);
                }
                self.entries.set(i, (k, v));
                return;
            }
            i = i + 1;
        }
        let ghost s = self.entries@;
        self.entries.push((k, v));
        assert(self.entries@.drop_last() =~= s);
    }
}

} // verus!
