//! A small map from string keys to values, kept as a vector of entries with distinct keys.
//! The client keeps per-model, per-runtime and per-session progress in these maps; the view
//! of a map is a mathematical `Map` from the keys' characters to the values' views.

use vstd::prelude::*;
use crate::text::str_eq;

verus! {

/// Entries keyed by string; at most one entry per key.
pub struct KeyedMap<V: View> {
    entries: Vec<(String, V)>,
    contents: Ghost<Map<Seq<char>, V::V>>,
}

impl<V: View> View for KeyedMap<V> {
    type V = Map<Seq<char>, V::V>;

    closed spec fn view(&self) -> Map<Seq<char>, V::V> {
        self.contents@
    }
}

impl<V: View> KeyedMap<V> {
    /// The key stored at entry `i`.
    spec fn key_at(&self, i: int) -> Seq<char> {
        self.entries@[i].0@
    }

    /// Well-formedness: keys are distinct, and the entries are exactly the map's contents.
    pub closed spec fn wf(&self) -> bool {
        &&& forall|i: int, j: int|
            0 <= i < j < self.entries@.len() ==> #[trigger] self.key_at(i) != #[trigger] self.key_at(
                j,
            )
        &&& forall|i: int|
            0 <= i < self.entries@.len() ==> #[trigger] self.contents@.contains_key(self.key_at(i))
                && self.contents@[self.key_at(i)] == self.entries@[i].1@
        &&& forall|k: Seq<char>|
            #[trigger] self.contents@.contains_key(k) ==> exists|i: int|
                0 <= i < self.entries@.len() && #[trigger] self.key_at(i) == k
    }

    /// An empty map.
    pub fn new() -> (m: Self)
        ensures
            m.wf(),
            m@ == Map::<Seq<char>, V::V>::empty(),
    {
        KeyedMap { entries: Vec::new(), contents: Ghost(Map::empty()) }
    }

    /// The number of entries.
    pub fn len(&self) -> (n: usize)
        requires
            self.wf(),
        ensures
            n == self@.dom().len(),
    {
        proof {
            self.lemma_len();
        }
        self.entries.len()
    }

    /// The map's domain has one key per entry.
    proof fn lemma_len(&self)
        requires
            self.wf(),
        ensures
            self@.dom().finite(),
            self@.dom().len() == self.entries@.len(),
        decreases self.entries@.len(),
    {
        let keys = Seq::new(self.entries@.len(), |i: int| self.key_at(i));
        assert forall|i: int, j: int| 0 <= i < j < keys.len() implies keys[i] != keys[j] by {
            assert(self.key_at(i) != self.key_at(j));
        }
        assert(keys.no_duplicates());
        keys.unique_seq_to_set();
        assert(keys.to_set() =~= self@.dom()) by {
            assert forall|k: Seq<char>| keys.to_set().contains(k) implies self@.dom().contains(
                k,
            ) by {
                let i = choose|i: int| 0 <= i < keys.len() && keys[i] == k;
                assert(self.contents@.contains_key(self.key_at(i)));
            }
            assert forall|k: Seq<char>| self@.dom().contains(k) implies keys.to_set().contains(
                k,
            ) by {
                assert(self.contents@.contains_key(k));
                let i = choose|i: int| 0 <= i < self.entries@.len() && #[trigger] self.key_at(i) == k;
                assert(keys[i] == k);
            }
        }
    }

    /// The position of the entry for `key`, if there is one.
    fn find(&self, key: &str) -> (r: Option<usize>)
        requires
            self.wf(),
        ensures
            match r {
                Some(i) => i < self.entries@.len() && self.key_at(i as int) == key@,
                None => !self@.contains_key(key@),
            },
    {
        let n = self.entries.len();
        let mut i: usize = 0;
        while i < n
            invariant
                self.wf(),
                n == self.entries@.len(),
                i <= n,
                forall|j: int| 0 <= j < i ==> #[trigger] self.key_at(j) != key@,
            decreases n - i,
        {
            if str_eq(self.entries[i].0.as_str(), key) {
                return Some(i);
            }
            i = i + 1;
        }
        proof {
            if self.contents@.contains_key(key@) {
                let j = choose|j: int| 0 <= j < self.entries@.len() && #[trigger] self.key_at(j) == key@;
                assert(self.key_at(j) != key@);
            }
        }
        None
    }

    /// Whether `key` has an entry.
    pub fn contains(&self, key: &str) -> (r: bool)
        requires
            self.wf(),
        ensures
            r == self@.contains_key(key@),
    {
        match self.find(key) {
            Some(i) => {
                assert(self.contents@.contains_key(self.key_at(i as int)));
                true
            },
            None => false,
        }
    }

    /// The value stored for `key`, if any.
    pub fn get(&self, key: &str) -> (r: Option<&V>)
        requires
            self.wf(),
        ensures
            match r {
                Some(v) => self@.contains_key(key@) && self@[key@] == v@,
                None => !self@.contains_key(key@),
            },
    {
        match self.find(key) {
            Some(i) => {
                assert(self.contents@.contains_key(self.key_at(i as int)));
                Some(&self.entries[i].1)
            },
            None => None,
        }
    }

    /// Sets the value for `key`, replacing any earlier one.
    pub fn insert(&mut self, key: String, value: V)
        requires
            old(self).wf(),
        ensures
            final(self).wf(),
            final(self)@ == old(self)@.insert(key@, value@),
    {
        let ghost k = key@;
        let ghost v = value@;
        match self.find(key.as_str()) {
            Some(i) => {
                let ghost before = self.entries@;
                self.entries.set(i, (key, value));
                self.contents = Ghost(self.contents@.insert(k, v));
                assert forall|j: int|
                    0 <= j < self.entries@.len() && j != i implies #[trigger] self.key_at(j)
                    == before[j].0@ by {}
                assert forall|a: int, b: int|
                    0 <= a < b < self.entries@.len() implies #[trigger] self.key_at(a)
                    != #[trigger] self.key_at(b) by {
                    assert(old(self).key_at(a) != old(self).key_at(b));
                }
                assert forall|q: Seq<char>| #[trigger]
                    self.contents@.contains_key(q) implies exists|j: int|
                    0 <= j < self.entries@.len() && #[trigger] self.key_at(j) == q by {
                    if q == k {
                        assert(self.key_at(i as int) == q);
                    } else {
                        let j = choose|j: int|
                            0 <= j < before.len() && #[trigger] before[j].0@ == q;
                        assert(self.key_at(j) == q);
                    }
                }
                assert forall|j: int| 0 <= j < self.entries@.len() implies #[trigger]
                    self.contents@.contains_key(self.key_at(j)) && self.contents@[self.key_at(j)]
                    == self.entries@[j].1@ by {
                    if j < i {
                        assert(old(self).key_at(j) != old(self).key_at(i as int));
                    } else if j > i {
                        assert(old(self).key_at(i as int) != old(self).key_at(j));
                    }
                }
            },
            None => {
                let ghost before = self.entries@;
                self.entries.push((key, value));
                self.contents = Ghost(self.contents@.insert(k, v));
                let ghost n = before.len() as int;
                assert forall|j: int| 0 <= j < n implies #[trigger] self.key_at(j) == before[j].0@
                    && self.entries@[j].1 == before[j].1 by {}
                assert forall|a: int, b: int|
                    0 <= a < b < self.entries@.len() implies #[trigger] self.key_at(a)
                    != #[trigger] self.key_at(b) by {
                    if b == n {
                        assert(old(self).contents@.contains_key(old(self).key_at(a)));
                    } else {
                        assert(old(self).key_at(a) != old(self).key_at(b));
                    }
                }
                assert forall|q: Seq<char>| #[trigger]
                    self.contents@.contains_key(q) implies exists|j: int|
                    0 <= j < self.entries@.len() && #[trigger] self.key_at(j) == q by {
                    if q == k {
                        assert(self.key_at(n) == q);
                    } else {
                        assert(old(self).contents@.contains_key(q));
                        let j = choose|j: int|
                            0 <= j < before.len() && #[trigger] before[j].0@ == q;
                        assert(self.key_at(j) == q);
                    }
                }
                assert forall|j: int| 0 <= j < self.entries@.len() implies #[trigger]
                    self.contents@.contains_key(self.key_at(j)) && self.contents@[self.key_at(j)]
                    == self.entries@[j].1@ by {
                    if j < n {
                        assert(old(self).contents@.contains_key(old(self).key_at(j)));
                    }
                }
            },
        }
    }

    /// Removes the entry for `key`, if there is one.
    pub fn remove(&mut self, key: &str)
        requires
            old(self).wf(),
        ensures
            final(self).wf(),
            final(self)@ == old(self)@.remove(key@),
    {
        let ghost k = key@;
        match self.find(key) {
            Some(i) => {
                let ghost before = self.entries@;
                self.entries.remove(i);
                self.contents = Ghost(self.contents@.remove(k));
                assert forall|j: int| 0 <= j < self.entries@.len() implies #[trigger] self.entries@[j]
                    == before[if j < i {
                    j
                } else {
                    j + 1
                }] by {}
                assert forall|a: int, b: int|
                    0 <= a < b < self.entries@.len() implies #[trigger] self.key_at(a)
                    != #[trigger] self.key_at(b) by {
                    let a1 = if a < i {
                        a
                    } else {
                        a + 1
                    };
                    let b1 = if b < i {
                        b
                    } else {
                        b + 1
                    };
                    assert(self.entries@[a] == before[a1]);
                    assert(self.entries@[b] == before[b1]);
                    assert(old(self).key_at(a1) != old(self).key_at(b1));
                }
                assert forall|j: int| 0 <= j < self.entries@.len() implies #[trigger]
                    self.contents@.contains_key(self.key_at(j)) && self.contents@[self.key_at(j)]
                    == self.entries@[j].1@ by {
                    let j1 = if j < i {
                        j
                    } else {
                        j + 1
                    };
                    assert(self.entries@[j] == before[j1]);
                    if j1 < i {
                        assert(old(self).key_at(j1) != old(self).key_at(i as int));
                    } else {
                        assert(old(self).key_at(i as int) != old(self).key_at(j1));
                    }
                    assert(old(self).contents@.contains_key(old(self).key_at(j1)));
                }
                assert forall|q: Seq<char>| #[trigger]
                    self.contents@.contains_key(q) implies exists|j: int|
                    0 <= j < self.entries@.len() && #[trigger] self.key_at(j) == q by {
                    assert(old(self).contents@.contains_key(q));
                    let j1 = choose|j: int|
                        0 <= j < before.len() && #[trigger] before[j].0@ == q;
                    assert(j1 != i);
                    let j = if j1 < i {
                        j1
                    } else {
                        j1 - 1
                    };
                    assert(self.entries@[j] == before[j1]);
                    assert(self.key_at(j) == q);
                }
            },
            None => {
                assert(self.contents@.remove(k) =~= self.contents@);
            },
        }
    }
}

} // verus!
