//! An associative table whose keys are compared for equality only.
//!
//! The tables of this crate are keyed by addresses and ports. A table is a list of its entries:
//! finding, entering or removing a key walks the list, so that filling a table takes time that
//! grows with the square of the number of its entries. That holds of the system's lists of
//! connections too, which may have thousands of rows and are read anew when they are too old.
use vstd::prelude::*;

verus! {

/// A key that can be compared for equality.
pub trait Key: Copy {
    /// Whether the two keys are the same.
    fn same(&self, other: &Self) -> (r: bool)
        ensures
            r == (*self == *other),
    ;
}

/// A finite map held as a list of its entries, no key twice.
pub struct Table<K, V> {
    entries: Vec<(K, V)>,
}

/// No two entries have the same key.
pub open spec fn distinct_keys<K, V>(entries: Seq<(K, V)>) -> bool {
    forall|i: int, j: int|
        #![trigger entries[i], entries[j]]
        0 <= i < entries.len() && 0 <= j < entries.len() && i != j ==> entries[i].0
            != entries[j].0
}

/// Entry `i` has key `k`.
pub open spec fn key_at<K, V>(entries: Seq<(K, V)>, k: K, i: int) -> bool {
    0 <= i < entries.len() && entries[i].0 == k
}

/// The map that a list of entries stands for.
pub open spec fn entry_map<K, V>(entries: Seq<(K, V)>) -> Map<K, V> {
    Map::new(
        |k: K| exists|i: int| key_at(entries, k, i),
        |k: K| entries[choose|i: int| key_at(entries, k, i)].1,
    )
}

impl<K, V> View for Table<K, V> {
    type V = Map<K, V>;

    closed spec fn view(&self) -> Map<K, V> {
        entry_map(self.entries@)
    }
}

proof fn lemma_entry<K, V>(entries: Seq<(K, V)>, i: int)
    requires
        distinct_keys(entries),
        0 <= i < entries.len(),
    ensures
        entry_map(entries).contains_key(entries[i].0),
        entry_map(entries)[entries[i].0] == entries[i].1,
{
    let k = entries[i].0;
    assert(key_at(entries, k, i));
    let j = choose|j: int| key_at(entries, k, j);
    assert(key_at(entries, k, j));
    assert(i == j);
}

proof fn lemma_len<K, V>(entries: Seq<(K, V)>)
    requires
        distinct_keys(entries),
    ensures
        entry_map(entries).dom().finite(),
        entry_map(entries).len() == entries.len(),
{
    let keys = entries.map_values(|e: (K, V)| e.0);
    assert(keys.no_duplicates());
    keys.unique_seq_to_set();
    assert forall|k: K| keys.to_set().contains(k) == entry_map(entries).dom().contains(k) by {
        if keys.contains(k) {
            let i = choose|i: int| 0 <= i < keys.len() && keys[i] == k;
            assert(key_at(entries, k, i));
        }
        if exists|i: int| key_at(entries, k, i) {
            let i = choose|i: int| key_at(entries, k, i);
            assert(keys[i] == k);
        }
    }
    assert(keys.to_set() =~= entry_map(entries).dom());
    vstd::seq_lib::seq_to_set_is_finite(keys);
}

/// Removing entry `i` in any order removes its key alone.
proof fn lemma_swap_remove<K, V>(before: Seq<(K, V)>, i: int, after: Seq<(K, V)>)
    requires
        distinct_keys(before),
        0 <= i < before.len(),
        after == before.update(i, before.last()).drop_last(),
    ensures
        distinct_keys(after),
        entry_map(after) == entry_map(before).remove(before[i].0),
{
    let gone = before[i].0;
    let n = before.len() - 1;
    assert forall|p: int, q: int|
        #![trigger after[p], after[q]]
        0 <= p < after.len() && 0 <= q < after.len() && p != q implies after[p].0 != after[q].0 by {
        let bp = if p == i { n } else { p };
        let bq = if q == i { n } else { q };
        assert(after[p] == before[bp] && after[q] == before[bq]);
    }
    let m = entry_map(before).remove(gone);
    assert forall|k: K| entry_map(after).contains_key(k) == m.contains_key(k) by {
        if entry_map(after).contains_key(k) {
            let p = choose|p: int| key_at(after, k, p);
            let bp = if p == i { n } else { p };
            assert(before[bp].0 == k && bp != i);
            assert(key_at(before, k, bp));
        }
        if m.contains_key(k) {
            let b = choose|b: int| key_at(before, k, b);
            assert(b != i);
            let p = if b == n { i } else { b };
            assert(key_at(after, k, p));
        }
    }
    assert forall|k: K| m.contains_key(k) implies entry_map(after)[k] == m[k] by {
        let b = choose|b: int| key_at(before, k, b);
        assert(b != i);
        let p = if b == n { i } else { b };
        assert(after[p] == before[b]);
        lemma_entry(after, p);
        lemma_entry(before, b);
    }
    assert(entry_map(after) =~= m);
}

impl<K: Key, V> Table<K, V> {
    /// Whether the list holds no key twice.
    pub closed spec fn wf(&self) -> bool {
        distinct_keys(self.entries@)
    }

    /// The empty table.
    pub fn new() -> (r: Self)
        ensures
            r.wf(),
            r@ == Map::<K, V>::empty(),
    {
        let r: Table<K, V> = Table { entries: Vec::new() };
        assert(r@ =~= Map::<K, V>::empty());
        r
    }

    fn find(&self, key: &K) -> (r: Option<usize>)
        requires
            self.wf(),
        ensures
            match r {
                Some(i) => i < self.entries@.len() && self.entries@[i as int].0 == *key
                    && self@.contains_key(*key) && self@[*key] == self.entries@[i as int].1,
                None => !self@.contains_key(*key),
            },
    {
        let mut i: usize = 0;
        while i < self.entries.len()
            invariant
                self.wf(),
                i <= self.entries@.len(),
                forall|j: int| 0 <= j < i ==> self.entries@[j].0 != *key,
            decreases self.entries@.len() - i,
        {
            if self.entries[i].0.same(key) {
                proof {
                    lemma_entry(self.entries@, i as int);
                }
                return Some(i);
            }
            i += 1;
        }
        None
    }

    /// How many keys there are.
    pub fn len(&self) -> (r: usize)
        requires
            self.wf(),
        ensures
            r == self@.len(),
            self@.dom().finite(),
    {
        proof {
            lemma_len(self.entries@);
        }
        self.entries.len()
    }

    /// The key at position `i` of the walk through the table.
    pub fn key(&self, i: usize) -> (r: K)
        requires
            self.wf(),
            i < self@.len(),
        ensures
            r == self.keys()[i as int],
    {
        proof {
            lemma_len(self.entries@);
        }
        self.entries[i].0
    }

    /// The keys, each once, in the order in which the table is walked.
    pub closed spec fn keys(&self) -> Seq<K> {
        self.entries@.map_values(|e: (K, V)| e.0)
    }

    /// The walk meets every key exactly once.
    pub proof fn lemma_keys(&self)
        requires
            self.wf(),
        ensures
            self.keys().no_duplicates(),
            self.keys().len() == self@.len(),
            self@.dom().finite(),
            forall|k: K| self@.contains_key(k) <==> #[trigger] self.keys().contains(k),
    {
        lemma_len(self.entries@);
        assert forall|k: K| self@.contains_key(k) <==> #[trigger] self.keys().contains(k) by {
            if self.keys().contains(k) {
                let i = choose|i: int| 0 <= i < self.keys().len() && self.keys()[i] == k;
                lemma_entry(self.entries@, i);
            }
            if self@.contains_key(k) {
                let i = choose|i: int| key_at(self.entries@, k, i);
                assert(self.keys()[i] == k);
            }
        }
    }

    /// The value under `key`, if there is one.
    pub fn get(&self, key: &K) -> (r: Option<&V>)
        requires
            self.wf(),
        ensures
            match r {
                Some(v) => self@.contains_key(*key) && *v == self@[*key],
                None => !self@.contains_key(*key),
            },
    {
        match self.find(key) {
            Some(i) => Some(&self.entries[i].1),
            None => None,
        }
    }

    /// Whether there is a value under `key`.
    pub fn contains(&self, key: &K) -> (r: bool)
        requires
            self.wf(),
        ensures
            r == self@.contains_key(*key),
    {
        self.find(key).is_some()
    }

    /// Puts `value` under `key`, in place of what stood there.
    pub fn insert(&mut self, key: K, value: V)
        requires
            old(self).wf(),
        ensures
            final(self).wf(),
            final(self)@ == old(self)@.insert(key, value),
    {
        let ghost before = self.entries@;
        match self.find(&key) {
            Some(i) => {
                self.entries.set(i, (key, value));
                proof {
                    let after = self.entries@;
                    assert(after == before.update(i as int, (key, value)));
                    assert(distinct_keys(after));
                    let m = entry_map(before).insert(key, value);
                    assert forall|k: K| entry_map(after).contains_key(k) == m.contains_key(k) by {
                        if entry_map(after).contains_key(k) {
                            let p = choose|p: int| key_at(after, k, p);
                            assert(key_at(before, k, p));
                        }
                        if m.contains_key(k) {
                            let p = choose|p: int| key_at(before, k, p);
                            assert(key_at(after, k, p));
                        }
                    }
                    assert forall|k: K| m.contains_key(k) implies entry_map(after)[k] == m[k] by {
                        let p = choose|p: int| key_at(before, k, p);
                        lemma_entry(before, p);
                        lemma_entry(after, p);
                    }
                    assert(entry_map(after) =~= m);
                }
            },
            None => {
                self.entries.push((key, value));
                proof {
                    let after = self.entries@;
                    assert(forall|j: int| 0 <= j < before.len() ==> key_at(before, before[j].0, j));
                    assert(distinct_keys(after));
                    let m = entry_map(before).insert(key, value);
                    assert forall|k: K| entry_map(after).contains_key(k) == m.contains_key(k) by {
                        if entry_map(after).contains_key(k) {
                            let p = choose|p: int| key_at(after, k, p);
                            if p < before.len() {
                                assert(key_at(before, k, p));
                            }
                        }
                        if m.contains_key(k) {
                            if k == key {
                                assert(key_at(after, k, before.len() as int));
                            } else {
                                let p = choose|p: int| key_at(before, k, p);
                                assert(key_at(after, k, p));
                            }
                        }
                    }
                    assert forall|k: K| m.contains_key(k) implies entry_map(after)[k] == m[k] by {
                        if k == key {
                            lemma_entry(after, before.len() as int);
                        } else {
                            let p = choose|p: int| key_at(before, k, p);
                            lemma_entry(before, p);
                            lemma_entry(after, p);
                        }
                    }
                    assert(entry_map(after) =~= m);
                }
            },
        }
    }

    /// Takes `key` out, and tells whether it was there.
    pub fn remove(&mut self, key: &K) -> (r: bool)
        requires
            old(self).wf(),
        ensures
            final(self).wf(),
            final(self)@ == old(self)@.remove(*key),
            r == old(self)@.contains_key(*key),
    {
        let ghost before = self.entries@;
        match self.find(key) {
            Some(i) => {
                let _ = self.entries.swap_remove(i);
                proof {
                    lemma_swap_remove(before, i as int, self.entries@);
                }
                true
            },
            None => {
                assert(old(self)@.remove(*key) =~= old(self)@);
                false
            },
        }
    }

    /// Takes everything out.
    pub fn clear(&mut self)
        ensures
            final(self).wf(),
            final(self)@ == Map::<K, V>::empty(),
    {
        self.entries.clear();
        assert(self@ =~= Map::<K, V>::empty());
    }

    /// Keeps the entries on whose value `keep` says yes.
    pub fn retain<F: Fn(&V) -> bool>(&mut self, keep: F)
        requires
            old(self).wf(),
            forall|v: &V| call_requires(keep, (v,)),
        ensures
            final(self).wf(),
            forall|k: K| #[trigger]
                final(self)@.contains_key(k) ==> old(self)@.contains_key(k) && final(self)@[k]
                    == old(self)@[k] && call_ensures(keep, (&old(self)@[k],), true),
            forall|k: K| #[trigger]
                old(self)@.contains_key(k) && !final(self)@.contains_key(k) ==> call_ensures(
                    keep,
                    (&old(self)@[k],),
                    false,
                ),
    {
        let mut i: usize = 0;
        while i < self.entries.len()
            invariant
                self.wf(),
                i <= self.entries@.len(),
                forall|v: &V| call_requires(keep, (v,)),
                forall|k: K| #[trigger]
                    self@.contains_key(k) ==> old(self)@.contains_key(k) && self@[k] == old(
                        self,
                    )@[k],
                forall|j: int|
                    0 <= j < i ==> call_ensures(keep, (&(#[trigger] self.entries@[j]).1,), true),
                forall|k: K| #[trigger]
                    old(self)@.contains_key(k) && !self@.contains_key(k) ==> call_ensures(
                        keep,
                        (&old(self)@[k],),
                        false,
                    ),
            decreases self.entries@.len() - i,
        {
            let ghost before = self.entries@;
            let ghost map_before = self@;
            proof {
                lemma_entry(before, i as int);
            }
            if keep(&self.entries[i].1) {
                i += 1;
            } else {
                let _ = self.entries.swap_remove(i);
                proof {
                    lemma_swap_remove(before, i as int, self.entries@);
                    assert forall|k: K| #[trigger] self@.contains_key(k) implies old(
                        self,
                    )@.contains_key(k) && self@[k] == old(self)@[k] by {
                        assert(map_before.contains_key(k));
                    }
                }
            }
        }
        proof {
            assert forall|k: K| #[trigger] self@.contains_key(k) implies call_ensures(
                keep,
                (&old(self)@[k],),
                true,
            ) by {
                let p = choose|p: int| key_at(self.entries@, k, p);
                lemma_entry(self.entries@, p);
            }
        }
    }
}

} // verus!
