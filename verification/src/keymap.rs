//! A finite key-value table, the in-memory form of a contract's keyed storage.
//!
//! Entries are kept in a vector with no two keys equal by their views, so the table
//! reads as a `Map` from key views to values.
use vstd::prelude::*;

verus! {

/// Keys whose run-time comparison agrees with equality of their views.
pub trait KeyEq: View + Sized {
    fn key_eq(&self, other: &Self) -> (r: bool)
        ensures
            r == (self@ == other@),
    ;
}

impl KeyEq for String {
    fn key_eq(&self, other: &Self) -> (r: bool) {
        self.eq(other)
    }
}

impl KeyEq for u64 {
    fn key_eq(&self, other: &Self) -> (r: bool) {
        *self == *other
    }
}

/// A table of values keyed by `K`; a key occurs at most once.
pub struct KeyMap<K, V> {
    entries: Vec<(K, V)>,
}

/// No two entries of `s` carry keys with the same view.
pub open spec fn keys_distinct<K: View, V>(s: Seq<(K, V)>) -> bool {
    forall|i: int, j: int|
        0 <= i < s.len() && 0 <= j < s.len() && i != j ==> #[trigger] s[i].0@ != #[trigger] s[j].0@
}

/// Some entry of `s` carries a key whose view is `k`.
pub open spec fn has_key<K: View, V>(s: Seq<(K, V)>, k: K::V) -> bool {
    exists|i: int| 0 <= i < s.len() && #[trigger] s[i].0@ == k
}

/// The map that the entries `s` stand for.
pub open spec fn entries_map<K: View, V>(s: Seq<(K, V)>) -> Map<K::V, V> {
    Map::new(
        |k: K::V| has_key(s, k),
        |k: K::V| s[choose|i: int| 0 <= i < s.len() && #[trigger] s[i].0@ == k].1,
    )
}

/// The sum of the values of `s`.
pub open spec fn entries_sum<K>(s: Seq<(K, i128)>) -> int
    decreases s.len(),
{
    if s.len() == 0 {
        0
    } else {
        entries_sum(s.drop_last()) + s.last().1
    }
}

/// Replacing one value changes the sum by the difference.
pub proof fn lemma_sum_update<K>(s: Seq<(K, i128)>, j: int, e: (K, i128))
    requires
        0 <= j < s.len(),
    ensures
        entries_sum(s.update(j, e)) == entries_sum(s) - s[j].1 + e.1,
    decreases s.len(),
{
    let t = s.update(j, e);
    if j == s.len() - 1 {
        assert(t.drop_last() =~= s.drop_last());
    } else {
        lemma_sum_update(s.drop_last(), j, e);
        assert(t.drop_last() =~= s.drop_last().update(j, e));
    }
}

/// With no negative value, every value is at most the sum.
pub proof fn lemma_value_le_sum<K>(s: Seq<(K, i128)>, j: int)
    requires
        0 <= j < s.len(),
        forall|i: int| 0 <= i < s.len() ==> #[trigger] s[i].1 >= 0,
    ensures
        s[j].1 <= entries_sum(s),
    decreases s.len(),
{
    lemma_sum_nonneg(s.drop_last());
    if j < s.len() - 1 {
        lemma_value_le_sum(s.drop_last(), j);
    }
}

/// With no negative value, the sum is not negative.
pub proof fn lemma_sum_nonneg<K>(s: Seq<(K, i128)>)
    requires
        forall|i: int| 0 <= i < s.len() ==> #[trigger] s[i].1 >= 0,
    ensures
        entries_sum(s) >= 0,
    decreases s.len(),
{
    if s.len() > 0 {
        lemma_sum_nonneg(s.drop_last());
    }
}

/// In entries with distinct keys, each entry is what its key maps to.
pub proof fn lemma_entries_map_at<K: View, V>(s: Seq<(K, V)>, i: int)
    requires
        keys_distinct(s),
        0 <= i < s.len(),
    ensures
        entries_map(s).contains_key(s[i].0@),
        entries_map(s)[s[i].0@] == s[i].1,
{
    let k = s[i].0@;
    assert(has_key(s, k));
    let c = choose|c: int| 0 <= c < s.len() && #[trigger] s[c].0@ == k;
    assert(c == i);
}

impl<K: View, V> View for KeyMap<K, V> {
    type V = Map<K::V, V>;

    closed spec fn view(&self) -> Map<K::V, V> {
        entries_map(self.entries@)
    }
}

impl<K: KeyEq, V> KeyMap<K, V> {
    /// The table's invariant: no key occurs twice.
    pub closed spec fn wf(&self) -> bool {
        keys_distinct(self.entries@)
    }

    /// The value stored under `k`, or `dflt` where there is none.
    pub open spec fn get_or(&self, k: K::V, dflt: V) -> V {
        if self@.contains_key(k) {
            self@[k]
        } else {
            dflt
        }
    }

    proof fn lemma_view_at(&self, i: int)
        requires
            self.wf(),
            0 <= i < self.entries@.len(),
        ensures
            self@.contains_key(self.entries@[i].0@),
            self@[self.entries@[i].0@] == self.entries@[i].1,
    {
        lemma_entries_map_at(self.entries@, i);
    }

    /// An empty table.
    pub fn new() -> (m: Self)
        ensures
            m.wf(),
            m@ == Map::<K::V, V>::empty(),
    {
        let m = KeyMap { entries: Vec::new() };
        assert(m@ =~= Map::<K::V, V>::empty());
        m
    }

    fn find(&self, k: &K) -> (r: Option<usize>)
        requires
            self.wf(),
        ensures
            match r {
                Some(i) => i < self.entries@.len() && self.entries@[i as int].0@ == k@,
                None => !self@.contains_key(k@),
            },
    {
        let n = self.entries.len();
        let mut i: usize = 0;
        while i < n
            invariant
                n == self.entries@.len(),
                i <= n,
                forall|j: int| 0 <= j < i ==> #[trigger] self.entries@[j].0@ != k@,
            decreases n - i,
        {
            if self.entries[i].0.key_eq(k) {
                return Some(i);
            }
            i = i + 1;
        }
        None
    }

    /// The value stored under `k`, if any.
    pub fn get(&self, k: &K) -> (r: Option<&V>)
        requires
            self.wf(),
        ensures
            match r {
                Some(v) => self@.contains_key(k@) && *v == self@[k@],
                None => !self@.contains_key(k@),
            },
    {
        match self.find(k) {
            Some(i) => {
                proof {
                    self.lemma_view_at(i as int);
                }
                Some(&self.entries[i].1)
            },
            None => None,
        }
    }

    /// Whether a value is stored under `k`.
    pub fn contains_key(&self, k: &K) -> (r: bool)
        requires
            self.wf(),
        ensures
            r == self@.contains_key(k@),
    {
        match self.find(k) {
            Some(i) => {
                proof {
                    self.lemma_view_at(i as int);
                }
                true
            },
            None => false,
        }
    }

    /// Stores `v` under `k`, replacing what was there.
    pub fn insert(&mut self, k: K, v: V)
        requires
            old(self).wf(),
        ensures
            final(self).wf(),
            final(self)@ == old(self)@.insert(k@, v),
    {
        let _ = self.put(k, v);
    }

    fn put(&mut self, k: K, v: V) -> (r: Option<usize>)
        requires
            old(self).wf(),
        ensures
            final(self).wf(),
            final(self)@ == old(self)@.insert(k@, v),
            match r {
                Some(i) => i < old(self).entries@.len() && old(self).entries@[i as int].0@ == k@
                    && final(self).entries@ == old(self).entries@.update(
                    i as int,
                    final(self).entries@[i as int],
                ) && final(self).entries@[i as int].1 == v,
                None => !old(self)@.contains_key(k@) && final(self).entries@.len() == old(
                    self,
                ).entries@.len() + 1 && final(self).entries@.drop_last() == old(self).entries@
                    && final(self).entries@.last().1 == v,
            },
    {
        let ghost kv = k@;
        match self.find(&k) {
            Some(i) => {
                let ghost s0 = self.entries@;
                self.entries.set(i, (k, v));
                proof {
                    let s1 = self.entries@;
                    assert(keys_distinct(s1)) by {
                        assert forall|a: int, b: int|
                            0 <= a < s1.len() && 0 <= b < s1.len() && a != b implies #[trigger] s1[a].0@
                            != #[trigger] s1[b].0@ by {
                            if a != i && b != i {
                                assert(s1[a] == s0[a] && s1[b] == s0[b]);
                            } else if a == i {
                                assert(s1[b] == s0[b]);
                                assert(s0[i as int].0@ != s0[b].0@);
                            } else {
                                assert(s1[a] == s0[a]);
                                assert(s0[i as int].0@ != s0[a].0@);
                            }
                        }
                    }
                    self.lemma_view_eq_insert(s0, i as int, kv, v);
                    assert(s1 =~= s0.update(i as int, s1[i as int]));
                }
                Some(i)
            },
            None => {
                let ghost s0 = self.entries@;
                self.entries.push((k, v));
                proof {
                    let s1 = self.entries@;
                    assert(forall|j: int| 0 <= j < s0.len() ==> #[trigger] s0[j].0@ != kv) by {
                        assert forall|j: int| 0 <= j < s0.len() implies #[trigger] s0[j].0@ != kv by {
                            if s0[j].0@ == kv {
                                assert(has_key(s0, kv));
                            }
                        }
                    }
                    assert(keys_distinct(s1)) by {
                        assert forall|a: int, b: int|
                            0 <= a < s1.len() && 0 <= b < s1.len() && a != b implies #[trigger] s1[a].0@
                            != #[trigger] s1[b].0@ by {
                            if a < s0.len() && b < s0.len() {
                                assert(s1[a] == s0[a] && s1[b] == s0[b]);
                            } else if a < s0.len() {
                                assert(s1[a] == s0[a]);
                            } else {
                                assert(s1[b] == s0[b]);
                            }
                        }
                    }
                    self.lemma_view_eq_push(s0, kv, v);
                    assert(s1.drop_last() =~= s0);
                }
                None
            },
        }
    }

    proof fn lemma_view_eq_insert(&self, s0: Seq<(K, V)>, i: int, kv: K::V, v: V)
        requires
            keys_distinct(s0),
            keys_distinct(self.entries@),
            0 <= i < s0.len(),
            s0[i].0@ == kv,
            self.entries@.len() == s0.len(),
            self.entries@[i].0@ == kv,
            self.entries@[i].1 == v,
            forall|j: int| 0 <= j < s0.len() && j != i ==> self.entries@[j] == s0[j],
        ensures
            self@ == entries_map(s0).insert(kv, v),
    {
        let s1 = self.entries@;
        let m0 = entries_map(s0);
        assert forall|k: K::V| #[trigger] has_key(s1, k) == (k == kv || has_key(s0, k)) by {
            if has_key(s1, k) {
                let j = choose|j: int| 0 <= j < s1.len() && #[trigger] s1[j].0@ == k;
                if j != i {
                    assert(s0[j] == s1[j]);
                }
            }
            if has_key(s0, k) {
                let j = choose|j: int| 0 <= j < s0.len() && #[trigger] s0[j].0@ == k;
                if j != i {
                    assert(s0[j] == s1[j]);
                }
            }
            if k == kv {
                assert(s1[i].0@ == k);
            }
        }
        assert forall|k: K::V| #[trigger] has_key(s1, k) implies entries_map(s1)[k] == m0.insert(
            kv,
            v,
        )[k] by {
            let j = choose|j: int| 0 <= j < s1.len() && #[trigger] s1[j].0@ == k;
            if k == kv {
                assert(j == i);
            } else {
                assert(j != i);
                assert(s0[j] == s1[j]);
                let c = choose|c: int| 0 <= c < s0.len() && #[trigger] s0[c].0@ == k;
                assert(has_key(s0, k));
                assert(c == j);
            }
        }
        assert(entries_map(s1) =~= m0.insert(kv, v));
    }

    proof fn lemma_view_eq_push(&self, s0: Seq<(K, V)>, kv: K::V, v: V)
        requires
            keys_distinct(s0),
            keys_distinct(self.entries@),
            self.entries@ == s0.push((self.entries@.last().0, v)),
            self.entries@.last().0@ == kv,
        ensures
            self@ == entries_map(s0).insert(kv, v),
    {
        let s1 = self.entries@;
        let n = s0.len() as int;
        let m0 = entries_map(s0);
        assert forall|k: K::V| #[trigger] has_key(s1, k) == (k == kv || has_key(s0, k)) by {
            if has_key(s1, k) {
                let j = choose|j: int| 0 <= j < s1.len() && #[trigger] s1[j].0@ == k;
                if j != n {
                    assert(s0[j] == s1[j]);
                }
            }
            if has_key(s0, k) {
                let j = choose|j: int| 0 <= j < s0.len() && #[trigger] s0[j].0@ == k;
                assert(s0[j] == s1[j]);
            }
            if k == kv {
                assert(s1[n].0@ == k);
            }
        }
        assert forall|k: K::V| #[trigger] has_key(s1, k) implies entries_map(s1)[k] == m0.insert(
            kv,
            v,
        )[k] by {
            let j = choose|j: int| 0 <= j < s1.len() && #[trigger] s1[j].0@ == k;
            if k == kv {
                assert(s1[n].0@ == k);
                assert(j == n);
            } else {
                assert(j != n);
                assert(s0[j] == s1[j]);
                let c = choose|c: int| 0 <= c < s0.len() && #[trigger] s0[c].0@ == k;
                assert(has_key(s0, k));
                assert(s1[c] == s0[c]);
                assert(c == j);
            }
        }
        assert(entries_map(s1) =~= m0.insert(kv, v));
    }

    /// Removes whatever is stored under `k`.
    pub fn remove(&mut self, k: &K)
        requires
            old(self).wf(),
        ensures
            final(self).wf(),
            final(self)@ == old(self)@.remove(k@),
    {
        match self.find(k) {
            Some(i) => {
                let ghost s0 = self.entries@;
                let _ = self.entries.remove(i);
                proof {
                    let s1 = self.entries@;
                    let ii = i as int;
                    assert forall|j: int| 0 <= j < s1.len() implies #[trigger] s1[j] == (if j < ii {
                        s0[j]
                    } else {
                        s0[j + 1]
                    }) by {}
                    assert(keys_distinct(s1)) by {
                        assert forall|a: int, b: int|
                            0 <= a < s1.len() && 0 <= b < s1.len() && a != b implies #[trigger] s1[a].0@
                            != #[trigger] s1[b].0@ by {
                            let a0 = if a < ii {
                                a
                            } else {
                                a + 1
                            };
                            let b0 = if b < ii {
                                b
                            } else {
                                b + 1
                            };
                            assert(s1[a] == s0[a0] && s1[b] == s0[b0]);
                        }
                    }
                    let m0 = entries_map(s0);
                    assert forall|key: K::V| #[trigger] has_key(s1, key) == (key != k@ && has_key(s0, key)) by {
                        if has_key(s1, key) {
                            let j = choose|j: int| 0 <= j < s1.len() && #[trigger] s1[j].0@ == key;
                            let j0 = if j < ii {
                                j
                            } else {
                                j + 1
                            };
                            assert(s1[j] == s0[j0]);
                            assert(s0[j0].0@ == key);
                        }
                        if key != k@ && has_key(s0, key) {
                            let j = choose|j: int| 0 <= j < s0.len() && #[trigger] s0[j].0@ == key;
                            assert(j != ii);
                            let j1 = if j < ii {
                                j
                            } else {
                                j - 1
                            };
                            assert(s1[j1] == s0[j]);
                        }
                    }
                    assert forall|key: K::V| #[trigger] has_key(s1, key) implies entries_map(s1)[key]
                        == m0[key] by {
                        let j = choose|j: int| 0 <= j < s1.len() && #[trigger] s1[j].0@ == key;
                        let j0 = if j < ii {
                            j
                        } else {
                            j + 1
                        };
                        assert(s1[j] == s0[j0]);
                        let c = choose|c: int| 0 <= c < s0.len() && #[trigger] s0[c].0@ == key;
                        assert(has_key(s0, key));
                        assert(c == j0);
                    }
                    assert(entries_map(s1) =~= m0.remove(k@));
                }
            },
            None => {
                assert(self@ =~= self@.remove(k@));
            },
        }
    }
}

impl<K: KeyEq> KeyMap<K, i128> {
    /// The sum of all stored amounts.
    pub closed spec fn total(&self) -> int {
        entries_sum(self.entries@)
    }

    /// No stored amount is negative.
    pub open spec fn all_nonneg(&self) -> bool {
        forall|k: K::V| #[trigger] self@.contains_key(k) ==> self@[k] >= 0
    }

    proof fn lemma_entries_nonneg(&self)
        requires
            self.wf(),
            self.all_nonneg(),
        ensures
            forall|i: int| 0 <= i < self.entries@.len() ==> #[trigger] self.entries@[i].1 >= 0,
    {
        assert forall|i: int| 0 <= i < self.entries@.len() implies #[trigger] self.entries@[i].1
            >= 0 by {
            self.lemma_view_at(i);
        }
    }

    /// An empty table totals zero.
    pub proof fn lemma_empty_total(&self)
        requires
            self@ == Map::<K::V, i128>::empty(),
        ensures
            self.total() == 0,
    {
        if self.entries@.len() > 0 {
            assert(has_key(self.entries@, self.entries@[0].0@));
            assert(self@.contains_key(self.entries@[0].0@));
        }
    }

    /// With no negative amount, the total is not negative and bounds every amount.
    pub proof fn lemma_amount_le_total(&self, k: K::V)
        requires
            self.wf(),
            self.all_nonneg(),
        ensures
            self.total() >= 0,
            self.get_or(k, 0) <= self.total(),
    {
        self.lemma_entries_nonneg();
        lemma_sum_nonneg(self.entries@);
        if self@.contains_key(k) {
            let s = self.entries@;
            let i = choose|i: int| 0 <= i < s.len() && #[trigger] s[i].0@ == k;
            self.lemma_view_at(i);
            lemma_value_le_sum(s, i);
        }
    }

    /// Stores the amount `v` under `k`; the total changes by the difference.
    pub fn set_amount(&mut self, k: K, v: i128)
        requires
            old(self).wf(),
        ensures
            final(self).wf(),
            final(self)@ == old(self)@.insert(k@, v),
            final(self).total() == old(self).total() - old(self).get_or(k@, 0) + v,
    {
        let ghost s0 = self.entries@;
        let ghost old_map = self@;
        let r = self.put(k, v);
        proof {
            let s1 = self.entries@;
            match r {
                Some(i) => {
                    lemma_sum_update(s0, i as int, s1[i as int]);
                    lemma_entries_map_at(s0, i as int);
                },
                None => {
                    assert(s1.drop_last() == s0);
                },
            }
        }
    }
}

} // verus!
