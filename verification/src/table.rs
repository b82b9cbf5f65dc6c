//! A small map from keys to values, held as a list of distinct keys.

use vstd::prelude::*;
use crate::hash::H256;

verus! {

/// A key that can be compared for equality.
pub trait Key: Copy {
    /// Whether two keys are the same.
    fn same(&self, other: &Self) -> (r: bool)
        ensures
            r == (*self == *other),
    ;
}

impl Key for H256 {
    fn same(&self, other: &Self) -> (r: bool) {
        self.hi == other.hi && self.lo == other.lo
    }
}

/// A map from keys to values.
pub struct Table<K, V> {
    keys: Vec<K>,
    values: Vec<V>,
}

/// No key occurs twice.
spec fn distinct<K>(keys: Seq<K>) -> bool {
    forall|i: int, j: int| 0 <= i < j < keys.len() ==> keys[i] != keys[j]
}

/// The place of a key.
spec fn place_of<K>(keys: Seq<K>, key: K) -> int {
    choose|i: int| 0 <= i < keys.len() && keys[i] == key
}

/// Where no key occurs twice, a key is found at its own place.
proof fn lemma_place<K>(keys: Seq<K>, i: int)
    requires
        distinct(keys),
        0 <= i < keys.len(),
    ensures
        keys.contains(keys[i]),
        place_of(keys, keys[i]) == i,
{
    let p = place_of(keys, keys[i]);
    assert(0 <= p < keys.len() && keys[p] == keys[i]);
    if p < i {
        assert(keys[p] != keys[i]);
    } else if i < p {
        assert(keys[i] != keys[p]);
    }
}

/// The values by their keys.
spec fn as_map<K, V>(keys: Seq<K>, values: Seq<V>) -> Map<K, V> {
    Map::new(|k: K| keys.contains(k), |k: K| values[place_of(keys, k)])
}

impl<K, V> View for Table<K, V> {
    type V = Map<K, V>;

    closed spec fn view(&self) -> Map<K, V> {
        as_map(self.keys@, self.values@)
    }
}

impl<K, V> Table<K, V> {
    /// What holds of every table that this module hands out.
    pub closed spec fn wf(&self) -> bool {
        &&& distinct(self.keys@)
        &&& self.keys@.len() == self.values@.len()
    }

    /// The number of keys.
    pub closed spec fn count(&self) -> nat {
        self.keys@.len()
    }

    /// A table without keys holds nothing, and the other way round.
    pub proof fn lemma_count_zero(&self)
        requires
            self.wf(),
        ensures
            (self.count() == 0) <==> (self@ == Map::<K, V>::empty()),
    {
        if self.count() == 0 {
            assert(self@ =~= Map::<K, V>::empty());
        } else {
            lemma_place(self.keys@, 0);
            assert(self@.dom().contains(self.keys@[0]));
        }
    }
}

impl<K: Key, V> Table<K, V> {
    /// A table that holds nothing.
    pub fn new() -> (r: Self)
        ensures
            r.wf(),
            r@ == Map::<K, V>::empty(),
            r.count() == 0,
    {
        let r = Table { keys: Vec::new(), values: Vec::new() };
        proof {
            assert(r@ =~= Map::<K, V>::empty());
        }
        r
    }

    /// Removes every key.
    pub fn clear(&mut self)
        ensures
            final(self).wf(),
            final(self)@ == Map::<K, V>::empty(),
            final(self).count() == 0,
    {
        self.keys.clear();
        self.values.clear();
        proof {
            assert(self@ =~= Map::<K, V>::empty());
        }
    }

    /// The number of keys.
    pub fn len(&self) -> (r: usize)
        requires
            self.wf(),
        ensures
            r == self.count(),
    {
        self.keys.len()
    }

    /// Whether the table holds nothing.
    pub fn is_empty(&self) -> (r: bool)
        requires
            self.wf(),
        ensures
            r == (self@ == Map::<K, V>::empty()),
            r == (self.count() == 0),
    {
        proof {
            self.lemma_count_zero();
        }
        self.keys.len() == 0
    }

    /// The place of a key, if it is there.
    fn find(&self, key: &K) -> (r: Option<usize>)
        requires
            self.wf(),
        ensures
            match r {
                Some(i) => i < self.keys@.len() && self.keys@[i as int] == *key
                    && self.keys@.contains(*key) && place_of(self.keys@, *key) == i,
                None => !self.keys@.contains(*key),
            },
    {
        let mut i: usize = 0;
        while i < self.keys.len()
            invariant
                distinct(self.keys@),
                i <= self.keys@.len(),
                forall|j: int| 0 <= j < i ==> self.keys@[j] != *key,
            decreases self.keys@.len() - i,
        {
            if self.keys[i].same(key) {
                proof {
                    lemma_place(self.keys@, i as int);
                }
                return Some(i);
            }
            i = i + 1;
        }
        None
    }

    /// Whether the key is in the table.
    pub fn contains_key(&self, key: &K) -> (r: bool)
        requires
            self.wf(),
        ensures
            r == self@.dom().contains(*key),
    {
        self.find(key).is_some()
    }

    /// The value of a key, where it is in the table.
    pub fn get(&self, key: &K) -> (r: Option<&V>)
        requires
            self.wf(),
        ensures
            match r {
                Some(value) => self@.dom().contains(*key) && *value == self@[*key],
                None => !self@.dom().contains(*key),
            },
    {
        match self.find(key) {
            Some(i) => Some(&self.values[i]),
            None => None,
        }
    }

    /// Sets the value of a key.
    pub fn insert(&mut self, key: K, value: V)
        requires
            old(self).wf(),
        ensures
            final(self).wf(),
            final(self)@ == old(self)@.insert(key, value),
            final(self).count() == if old(self)@.dom().contains(key) {
                old(self).count()
            } else {
                old(self).count() + 1
            },
    {
        match self.find(&key) {
            Some(i) => {
                self.values.set(i, value);
                proof {
                    let keys = self.keys@;
                    assert forall|k: K| keys.contains(k) implies #[trigger] self@[k] == old(
                        self,
                    )@.insert(key, value)[k] by {
                        let p = place_of(keys, k);
                        lemma_place(keys, p);
                    }
                    assert(self@ =~= old(self)@.insert(key, value));
                }
            },
            None => {
                self.keys.push(key);
                self.values.push(value);
                proof {
                    let before = old(self).keys@;
                    let keys = self.keys@;
                    assert(keys[before.len() as int] == key);
                    assert forall|i: int, j: int| 0 <= i < j < keys.len() implies keys[i]
                        != keys[j] by {
                        if j < before.len() {
                            assert(before[i] != before[j]);
                        } else {
                            assert(before[i] == keys[i]);
                        }
                    }
                    assert forall|k: K| keys.contains(k) == (before.contains(k) || k == key) by {
                        if before.contains(k) {
                            let p = place_of(before, k);
                            assert(keys[p] == k);
                        }
                        if keys.contains(k) && k != key {
                            let p = place_of(keys, k);
                            assert(before[p] == k);
                        }
                    }
                    assert forall|k: K| keys.contains(k) implies #[trigger] self@[k] == old(
                        self,
                    )@.insert(key, value)[k] by {
                        let p = place_of(keys, k);
                        lemma_place(keys, p);
                        if k != key {
                            assert(before[p] == k);
                            lemma_place(before, p);
                        }
                    }
                    assert(self@ =~= old(self)@.insert(key, value));
                }
            },
        }
    }

    /// Takes a key out of the table, with its value.
    pub fn remove(&mut self, key: &K) -> (r: Option<V>)
        requires
            old(self).wf(),
        ensures
            final(self).wf(),
            final(self)@ == old(self)@.remove(*key),
            r == if old(self)@.dom().contains(*key) {
                Some(old(self)@[*key])
            } else {
                None::<V>
            },
            final(self).count() == if old(self)@.dom().contains(*key) {
                (old(self).count() - 1) as nat
            } else {
                old(self).count()
            },
            old(self)@.dom().contains(*key) ==> old(self).count() > 0,
    {
        match self.find(key) {
            Some(i) => {
                let _ = self.keys.remove(i);
                let value = self.values.remove(i);
                proof {
                    let before = old(self).keys@;
                    let keys = self.keys@;
                    assert forall|x: int, y: int| 0 <= x < y < keys.len() implies keys[x]
                        != keys[y] by {
                        let ox = if x < i {
                            x
                        } else {
                            x + 1
                        };
                        let oy = if y < i {
                            y
                        } else {
                            y + 1
                        };
                        assert(before[ox] != before[oy]);
                    }
                    assert forall|k: K| keys.contains(k) == (before.contains(k) && k != *key) by {
                        if before.contains(k) && k != *key {
                            let p = place_of(before, k);
                            let q = if p < i {
                                p
                            } else {
                                p - 1
                            };
                            assert(keys[q] == k);
                        }
                        if keys.contains(k) {
                            let q = place_of(keys, k);
                            let p = if q < i {
                                q
                            } else {
                                q + 1
                            };
                            assert(before[p] == k);
                            lemma_place(before, p);
                            lemma_place(before, i as int);
                        }
                    }
                    assert forall|k: K| keys.contains(k) implies #[trigger] self@[k] == old(
                        self,
                    )@.remove(*key)[k] by {
                        let q = place_of(keys, k);
                        lemma_place(keys, q);
                        let p = if q < i {
                            q
                        } else {
                            q + 1
                        };
                        assert(before[p] == k);
                        lemma_place(before, p);
                    }
                    assert(self@ =~= old(self)@.remove(*key));
                }
                Some(value)
            },
            None => {
                proof {
                    assert(self@ =~= old(self)@.remove(*key));
                }
                None
            },
        }
    }
}

} // verus!
