//! A dictionary keyed by strings that keeps its entries in insertion order.

use vstd::prelude::*;
use vstd::string::*;

verus! {

/// A finite map from strings to values.
///
/// Entries are kept in the order in which their keys were first inserted, and
/// no key occurs twice.
#[derive(Debug, PartialEq, Eq)]
pub struct Dictionary<V> {
    entries: Vec<(String, V)>,
}

/// Whether no two entries of `entries` have the same key.
pub open spec fn keys_distinct<V>(entries: Seq<(String, V)>) -> bool {
    forall|i: int, j: int|
        0 <= i < j < entries.len() ==> (#[trigger] entries[i]).0@ != (#[trigger] entries[j]).0@
}

/// Whether some entry of `entries` has the key `key`.
pub open spec fn has_key<V>(entries: Seq<(String, V)>, key: Seq<char>) -> bool {
    exists|i: int| 0 <= i < entries.len() && (#[trigger] entries[i]).0@ == key
}

/// The position of an entry with the key `key`, if there is one.
pub open spec fn position_of<V>(entries: Seq<(String, V)>, key: Seq<char>) -> int {
    choose|i: int| 0 <= i < entries.len() && (#[trigger] entries[i]).0@ == key
}

impl<V> Dictionary<V> {
    /// The entries as a sequence of pairs, in insertion order.
    pub closed spec fn entries(&self) -> Seq<(String, V)> {
        self.entries@
    }

    /// The invariant of the type: no key occurs twice.
    #[verifier::type_invariant]
    spec fn wf(&self) -> bool {
        keys_distinct(self.entries@)
    }

    /// The keys in insertion order.
    pub open spec fn key_order(&self) -> Seq<Seq<char>> {
        Seq::new(self.entries().len(), |i: int| self.entries()[i].0@)
    }

    /// The dictionary as a mathematical map.
    pub open spec fn view(&self) -> Map<Seq<char>, V> {
        Map::new(
            |k: Seq<char>| has_key(self.entries(), k),
            |k: Seq<char>| self.entries()[position_of(self.entries(), k)].1,
        )
    }

    /// An empty dictionary.
    pub fn new() -> (d: Self)
        ensures
            d@ == Map::<Seq<char>, V>::empty(),
            d.key_order() == Seq::<Seq<char>>::empty(),
    {
        let d = Dictionary { entries: Vec::new() };
        assert(d@ =~= Map::<Seq<char>, V>::empty());
        assert(d.key_order() =~= Seq::<Seq<char>>::empty());
        d
    }

    /// The number of entries.
    pub fn len(&self) -> (n: usize)
        ensures
            n == self.key_order().len(),
    {
        self.entries.len()
    }

    /// The position of `key` among the entries, if it is present.
    fn find(&self, key: &String) -> (r: Option<usize>)
        ensures
            match r {
                Some(i) => i < self.entries().len() && self.entries()[i as int].0@ == key@,
                None => !has_key(self.entries(), key@),
            },
    {
        let mut i: usize = 0;
        while i < self.entries.len()
            invariant
                i <= self.entries.len(),
                forall|j: int| 0 <= j < i ==> (#[trigger] self.entries@[j]).0@ != key@,
            decreases self.entries.len() - i,
        {
            if self.entries[i].0 == *key {
                return Some(i);
            }
            i = i + 1;
        }
        None
    }

    /// Whether `key` is present.
    pub fn contains_key(&self, key: &str) -> (b: bool)
        ensures
            b == self@.contains_key(key@),
    {
        let owned = key.to_owned();
        self.find(&owned).is_some()
    }

    /// The value stored under `key`, if there is one.
    pub fn get(&self, key: &str) -> (r: Option<&V>)
        ensures
            match r {
                Some(v) => self@.contains_key(key@) && *v == self@[key@],
                None => !self@.contains_key(key@),
            },
    {
        let owned = key.to_owned();
        match self.find(&owned) {
            Some(i) => {
                proof {
                    use_type_invariant(self);
                    let p = position_of(self.entries(), key@);
                    assert(self.entries()[i as int].0@ == key@);
                    assert(p == i as int) by {
                        if p < i as int {
                            assert(self.entries()[p].0@ != self.entries()[i as int].0@);
                        } else if (i as int) < p {
                            assert(self.entries()[i as int].0@ != self.entries()[p].0@);
                        }
                    }
                }
                Some(&self.entries[i].1)
            },
            None => None,
        }
    }

    /// Stores `value` under `key`. A value already stored under `key` is
    /// replaced and the key keeps its place in the order; a new key goes last.
    pub fn insert(&mut self, key: String, value: V)
        ensures
            final(self)@ == old(self)@.insert(key@, value),
            final(self).key_order() == if old(self)@.contains_key(key@) {
                old(self).key_order()
            } else {
                old(self).key_order().push(key@)
            },
    {
        let found = self.find(&key);
        let ghost before = self.entries@;
        let ghost k = key@;
        proof {
            use_type_invariant(&*self);
            let after = match found {
                Some(i) => before.update(i as int, (key, value)),
                None => before.push((key, value)),
            };
            assert(keys_distinct(after)) by {
                assert forall|a: int, b: int| 0 <= a < b < after.len() implies (#[trigger] after[a]).0@
                    != (#[trigger] after[b]).0@ by {
                    match found {
                        Some(i) => {
                            assert(before[a].0@ != before[b].0@);
                        },
                        None => {
                            if b == before.len() {
                                assert(before[a].0@ != k);
                            } else {
                                assert(before[a].0@ != before[b].0@);
                            }
                        },
                    }
                }
            }
        }
        let mut entries: Vec<(String, V)> = Vec::new();
        core::mem::swap(&mut self.entries, &mut entries);
        match found {
            Some(i) => {
                entries.set(i, (key, value));
            },
            None => {
                entries.push((key, value));
            },
        }
        self.entries = entries;
        proof {
            let after = self.entries@;
            assert forall|q: Seq<char>| has_key(after, q) <==> (q == k || has_key(before, q)) by {
                if has_key(after, q) {
                    let w = position_of(after, q);
                    assert(after[w].0@ == q);
                    if q != k {
                        assert(before[w].0@ == q);
                    }
                }
                if q == k {
                    match found {
                        Some(i) => {
                            assert(after[i as int].0@ == k);
                        },
                        None => {
                            assert(after[before.len() as int].0@ == k);
                        },
                    }
                } else if has_key(before, q) {
                    let w = position_of(before, q);
                    assert(before[w].0@ == q);
                    assert(after[w].0@ == q);
                }
            }
            assert forall|q: Seq<char>| has_key(after, q) implies #[trigger] self@[q] == old(
                self,
            )@.insert(k, value)[q] by {
                let w = position_of(after, q);
                assert(after[w].0@ == q);
                if q == k {
                    match found {
                        Some(i) => {
                            if w != i as int {
                                if w < i as int {
                                    assert(after[w].0@ != after[i as int].0@);
                                } else {
                                    assert(after[i as int].0@ != after[w].0@);
                                }
                            }
                        },
                        None => {
                            if w != before.len() {
                                assert(before[w].0@ == k);
                            }
                        },
                    }
                } else {
                    let v = position_of(before, q);
                    assert(before[w].0@ == q);
                    assert(before[v].0@ == q);
                    if v < w {
                        assert(before[v].0@ != before[w].0@);
                    } else if w < v {
                        assert(before[w].0@ != before[v].0@);
                    }
                }
            }
            assert(self@ =~= old(self)@.insert(k, value));
            if old(self)@.contains_key(k) {
                assert(self.key_order() =~= old(self).key_order());
            } else {
                assert(self.key_order() =~= old(self).key_order().push(k));
            }
        }
    }

    /// The keys, in insertion order.
    pub fn keys(&self) -> (r: Vec<String>)
        ensures
            r@.len() == self.key_order().len(),
            forall|i: int| 0 <= i < r@.len() ==> (#[trigger] r@[i])@ == self.key_order()[i],
            self.key_order().no_duplicates(),
            forall|k: Seq<char>| self@.contains_key(k) <==> self.key_order().contains(k),
    {
        proof {
            use_type_invariant(self);
            lemma_key_order_matches_domain(self.entries());
        }
        let mut r: Vec<String> = Vec::new();
        let mut i: usize = 0;
        while i < self.entries.len()
            invariant
                i <= self.entries.len(),
                r@.len() == i,
                forall|j: int| 0 <= j < i ==> (#[trigger] r@[j])@ == self.entries@[j].0@,
            decreases self.entries.len() - i,
        {
            r.push(self.entries[i].0.clone());
            i = i + 1;
        }
        r
    }
}

impl<V: Clone> Clone for Dictionary<V> {
    /// A dictionary with the same keys in the same order, each with a clone
    /// of its value.
    fn clone(&self) -> (r: Self)
        ensures
            r.key_order() == self.key_order(),
    {
        proof {
            use_type_invariant(self);
        }
        let mut entries: Vec<(String, V)> = Vec::new();
        let mut i: usize = 0;
        while i < self.entries.len()
            invariant
                i <= self.entries.len(),
                entries@.len() == i,
                keys_distinct(self.entries@),
                forall|j: int| 0 <= j < i ==> (#[trigger] entries@[j]).0@ == self.entries@[j].0@,
            decreases self.entries.len() - i,
        {
            entries.push((self.entries[i].0.clone(), self.entries[i].1.clone()));
            i = i + 1;
        }
        proof {
            assert forall|a: int, b: int| 0 <= a < b < entries@.len() implies (#[trigger] entries@[a]).0@
                != (#[trigger] entries@[b]).0@ by {
                assert(self.entries@[a].0@ != self.entries@[b].0@);
            }
        }
        let r = Dictionary { entries };
        assert(r.key_order() =~= self.key_order());
        r
    }
}

/// Among entries with distinct keys, a key is present exactly if it occurs in
/// the sequence of keys, and no key occurs there twice.
proof fn lemma_key_order_matches_domain<V>(entries: Seq<(String, V)>)
    requires
        keys_distinct(entries),
    ensures
        Seq::new(entries.len(), |i: int| entries[i].0@).no_duplicates(),
        forall|key: Seq<char>|
            has_key(entries, key) <==> Seq::new(entries.len(), |i: int| entries[i].0@).contains(key),
{
    let order = Seq::new(entries.len(), |i: int| entries[i].0@);
    assert forall|key: Seq<char>| has_key(entries, key) <==> order.contains(key) by {
        if has_key(entries, key) {
            let p = position_of(entries, key);
            assert(order[p] == key);
        }
        if order.contains(key) {
            let p = choose|i: int| 0 <= i < order.len() && order[i] == key;
            assert(entries[p].0@ == key);
        }
    }
    assert forall|i: int, j: int| 0 <= i < order.len() && 0 <= j < order.len() && i != j implies order[i]
        != order[j] by {
        if i < j {
            assert(entries[i].0@ != entries[j].0@);
        } else {
            assert(entries[j].0@ != entries[i].0@);
        }
    }
}

} // verus!
