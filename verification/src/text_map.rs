//! A map from text keys to values, kept as a list of entries with distinct keys.

use vstd::prelude::*;

verus! {

pub struct TextMap<V> {
    entries: Vec<(String, V)>,
}

/// The position of `key` among the entries, if it has one.
pub open spec fn has_key<V>(entries: Seq<(String, V)>, key: Seq<char>) -> bool {
    exists|i: int| 0 <= i < entries.len() && #[trigger] entries[i].0@ == key
}

pub open spec fn key_position<V>(entries: Seq<(String, V)>, key: Seq<char>) -> int {
    choose|i: int| 0 <= i < entries.len() && #[trigger] entries[i].0@ == key
}

impl<V: View> View for TextMap<V> {
    type V = Map<Seq<char>, V::V>;

    closed spec fn view(&self) -> Map<Seq<char>, V::V> {
        let entries = self.entries@;
        Map::new(
            |key: Seq<char>| has_key(entries, key),
            |key: Seq<char>| entries[key_position(entries, key)].1@,
        )
    }
}

impl<V: View> TextMap<V> {
    /// No key occurs twice.
    pub closed spec fn wf(&self) -> bool {
        forall|i: int, j: int|
            #![trigger self.entries@[i], self.entries@[j]]
            0 <= i < j < self.entries@.len() ==> self.entries@[i].0@ != self.entries@[j].0@
    }

    /// The number of entries.
    pub closed spec fn count(&self) -> nat {
        self.entries@.len()
    }

    /// The key of the entry at a position.
    pub closed spec fn key_of(&self, i: int) -> Seq<char> {
        self.entries@[i].0@
    }

    /// The keys, in the order in which they came.
    pub open spec fn keys(&self) -> Seq<Seq<char>> {
        Seq::new(self.count(), |i: int| self.key_of(i))
    }

    proof fn lemma_entry(&self, i: int)
        requires
            self.wf(),
            0 <= i < self.entries@.len(),
        ensures
            self@.dom().contains(self.entries@[i].0@),
            self@[self.entries@[i].0@] == self.entries@[i].1@,
    {
        let key = self.entries@[i].0@;
        let at = key_position(self.entries@, key);
        assert(has_key(self.entries@, key));
        assert(0 <= at < self.entries@.len() && self.entries@[at].0@ == key);
        assert(at == i) by {
            if at < i {
                assert(self.entries@[at].0@ != self.entries@[i].0@);
            } else if i < at {
                assert(self.entries@[i].0@ != self.entries@[at].0@);
            }
        }
    }

    /// Positions, keys and the map agree.
    pub proof fn lemma_positions(&self)
        requires
            self.wf(),
        ensures
            forall|i: int| 0 <= i < self.count() ==> self@.dom().contains(#[trigger] self.key_of(i)),
            forall|i: int, j: int|
                0 <= i < j < self.count() ==> #[trigger] self.key_of(i) != #[trigger] self.key_of(j),
            forall|key: Seq<char>| #[trigger]
                self@.dom().contains(key) ==> exists|i: int|
                    0 <= i < self.count() && #[trigger] self.key_of(i) == key,
    {
        assert forall|i: int| 0 <= i < self.count() implies self@.dom().contains(
            #[trigger] self.key_of(i),
        ) by {
            self.lemma_entry(i);
        }
        assert forall|key: Seq<char>| #[trigger] self@.dom().contains(key) implies exists|i: int|
            0 <= i < self.count() && #[trigger] self.key_of(i) == key by {
            let at = key_position(self.entries@, key);
            assert(has_key(self.entries@, key));
            assert(self.key_of(at) == key);
        }
    }

    /// The number of entries is the size of the map.
    pub proof fn lemma_count(&self)
        requires
            self.wf(),
        ensures
            self@.dom().finite(),
            self@.dom().len() == self.count(),
    {
        let keys = Seq::new(self.entries@.len(), |i: int| self.entries@[i].0@);
        assert(keys.no_duplicates()) by {
            assert forall|i: int, j: int|
                0 <= i < keys.len() && 0 <= j < keys.len() && i != j implies keys[i] != keys[j] by {
                if i < j {
                    assert(self.entries@[i].0@ != self.entries@[j].0@);
                } else {
                    assert(self.entries@[j].0@ != self.entries@[i].0@);
                }
            }
        }
        keys.unique_seq_to_set();
        assert(keys.to_set() =~= self@.dom()) by {
            assert forall|key: Seq<char>| keys.to_set().contains(key) == self@.dom().contains(
                key,
            ) by {
                if keys.to_set().contains(key) {
                    let i = choose|i: int| 0 <= i < keys.len() && keys[i] == key;
                    assert(self.entries@[i].0@ == key);
                }
                if self@.dom().contains(key) {
                    let at = key_position(self.entries@, key);
                    assert(keys[at] == key);
                }
            }
        }
    }

    pub fn new() -> (map: Self)
        ensures
            map.wf(),
            map@ == Map::<Seq<char>, V::V>::empty(),
            map.keys() == Seq::<Seq<char>>::empty(),
    {
        let map = TextMap { entries: Vec::new() };
        assert(map@ =~= Map::<Seq<char>, V::V>::empty());
        assert(map.keys() =~= Seq::<Seq<char>>::empty());
        map
    }

    pub fn len(&self) -> (count: usize)
        requires
            self.wf(),
        ensures
            count == self@.dom().len(),
            count == self.count(),
    {
        proof {
            self.lemma_count();
        }
        self.entries.len()
    }

    fn find(&self, key: &str) -> (found: Option<usize>)
        requires
            self.wf(),
        ensures
            found matches Some(i) ==> i < self.entries@.len() && self.entries@[i as int].0@ == key@,
            found is None ==> !has_key(self.entries@, key@),
    {
        let mut i: usize = 0;
        while i < self.entries.len()
            invariant
                i <= self.entries@.len(),
                forall|j: int| 0 <= j < i ==> (#[trigger] self.entries@[j]).0@ != key@,
            decreases self.entries@.len() - i,
        {
            if text_equal(self.entries[i].0.as_str(), key) {
                return Some(i);
            }
            i += 1;
        }
        None
    }

    pub fn contains_key(&self, key: &str) -> (found: bool)
        requires
            self.wf(),
        ensures
            found == self@.dom().contains(key@),
    {
        self.find(key).is_some()
    }

    pub fn get(&self, key: &str) -> (value: Option<&V>)
        requires
            self.wf(),
        ensures
            value is Some == self@.dom().contains(key@),
            value matches Some(v) ==> v@ == self@[key@],
    {
        match self.find(key) {
            Some(i) => {
                proof {
                    self.lemma_entry(i as int);
                }
                Some(&self.entries[i].1)
            },
            None => None,
        }
    }

    /// The key at a position.
    pub fn key_at(&self, i: usize) -> (key: &str)
        requires
            self.wf(),
            i < self.count(),
        ensures
            key@ == self.key_of(i as int),
            self@.dom().contains(key@),
    {
        proof {
            self.lemma_entry(i as int);
        }
        self.entries[i].0.as_str()
    }

    /// The value at a position.
    pub fn value_at(&self, i: usize) -> (value: &V)
        requires
            self.wf(),
            i < self.count(),
        ensures
            self@.dom().contains(self.key_of(i as int)),
            value@ == self@[self.key_of(i as int)],
    {
        proof {
            self.lemma_entry(i as int);
        }
        &self.entries[i].1
    }

    pub fn insert(&mut self, key: String, value: V)
        requires
            old(self).wf(),
        ensures
            final(self).wf(),
            final(self)@ == old(self)@.insert(key@, value@),
            final(self).keys() == (if old(self)@.dom().contains(key@) {
                old(self).keys()
            } else {
                old(self).keys().push(key@)
            }),
    {
        match self.find(key.as_str()) {
            Some(i) => {
                let ghost before = self.entries@;
                self.entries.set(i, (key, value));
                proof {
                    let after = self.entries@;
                    assert(forall|j: int| 0 <= j < after.len() ==> after[j].0@ == before[j].0@);
                    assert(self.keys() =~= old(self).keys());
                    assert(self.wf());
                    assert(self@ =~= old(self)@.insert(key@, value@)) by {
                        assert forall|k: Seq<char>| self@.dom().contains(k) == old(
                            self,
                        )@.insert(key@, value@).dom().contains(k) by {
                            if has_key(before, k) {
                                let at = key_position(before, k);
                                assert(after[at].0@ == k);
                            }
                            if has_key(after, k) {
                                let at = key_position(after, k);
                                assert(before[at].0@ == k);
                            }
                            assert(after[i as int].0@ == key@);
                        }
                        assert forall|k: Seq<char>| self@.dom().contains(k) implies self@[k] == old(
                            self,
                        )@.insert(key@, value@)[k] by {
                            let at = key_position(after, k);
                            assert(has_key(after, k));
                            self.lemma_entry(at);
                            old(self).lemma_entry(at);
                            self.lemma_entry(i as int);
                        }
                    }
                }
            },
            None => {
                let ghost before = self.entries@;
                self.entries.push((key, value));
                proof {
                    let after = self.entries@;
                    let last = before.len() as int;
                    assert(forall|j: int| 0 <= j < before.len() ==> after[j] == before[j]);
                    assert(self.keys() =~= old(self).keys().push(key@));
                    assert(self.wf()) by {
                        assert forall|p: int, q: int|
                            0 <= p < q < after.len() implies #[trigger] after[p].0@
                            != #[trigger] after[q].0@ by {
                            if q == last {
                                assert(before[p].0@ != key@);
                            } else {
                                assert(before[p].0@ != before[q].0@);
                            }
                        }
                    }
                    assert(self@ =~= old(self)@.insert(key@, value@)) by {
                        assert forall|k: Seq<char>| self@.dom().contains(k) == old(
                            self,
                        )@.insert(key@, value@).dom().contains(k) by {
                            if has_key(before, k) {
                                let at = key_position(before, k);
                                assert(after[at].0@ == k);
                            }
                            if has_key(after, k) {
                                let at = key_position(after, k);
                                if at < last {
                                    assert(before[at].0@ == k);
                                }
                            }
                            assert(after[last].0@ == key@);
                        }
                        assert forall|k: Seq<char>| self@.dom().contains(k) implies self@[k] == old(
                            self,
                        )@.insert(key@, value@)[k] by {
                            let at = key_position(after, k);
                            assert(has_key(after, k));
                            self.lemma_entry(at);
                            if at < last {
                                old(self).lemma_entry(at);
                                assert(before[at].0@ != key@);
                            }
                        }
                    }
                }
            },
        }
    }

    pub fn remove(&mut self, key: &str) -> (present: bool)
        requires
            old(self).wf(),
        ensures
            final(self).wf(),
            final(self)@ == old(self)@.remove(key@),
            present == old(self)@.dom().contains(key@),
    {
        match self.find(key) {
            Some(i) => {
                let ghost before = self.entries@;
                let _removed = self.entries.remove(i);
                proof {
                    let after = self.entries@;
                    let gone = i as int;
                    assert(after =~= before.remove(gone));
                    assert forall|p: int, q: int| 0 <= p < q < after.len() implies (
                    #[trigger] after[p]).0@ != (#[trigger] after[q]).0@ by {
                        let p0 = if p < gone { p } else { p + 1 };
                        let q0 = if q < gone { q } else { q + 1 };
                        assert(before[p0].0@ != before[q0].0@);
                    }
                    assert(self.wf());
                    assert(self@ =~= old(self)@.remove(key@)) by {
                        assert forall|k: Seq<char>| self@.dom().contains(k) == old(self)@.remove(
                            key@,
                        ).dom().contains(k) by {
                            if has_key(after, k) {
                                let at = key_position(after, k);
                                let at0 = if at < gone { at } else { at + 1 };
                                assert(before[at0].0@ == k);
                                if at0 < gone {
                                    assert(before[at0].0@ != before[gone].0@);
                                } else {
                                    assert(before[gone].0@ != before[at0].0@);
                                }
                            }
                            if has_key(before, k) && k != key@ {
                                let at0 = key_position(before, k);
                                let at = if at0 < gone { at0 } else { at0 - 1 };
                                assert(at0 != gone);
                                assert(after[at].0@ == k);
                            }
                        }
                        assert forall|k: Seq<char>| self@.dom().contains(k) implies self@[k] == old(
                            self,
                        )@.remove(key@)[k] by {
                            let at = key_position(after, k);
                            assert(has_key(after, k));
                            let at0 = if at < gone { at } else { at + 1 };
                            self.lemma_entry(at);
                            old(self).lemma_entry(at0);
                        }
                    }
                }
                true
            },
            None => {
                assert(self@ =~= old(self)@.remove(key@));
                false
            },
        }
    }

    pub fn clear(&mut self)
        ensures
            final(self).wf(),
            final(self)@ == Map::<Seq<char>, V::V>::empty(),
    {
        self.entries = Vec::new();
        assert(self@ =~= Map::<Seq<char>, V::V>::empty());
    }
}

pub fn text_equal(a: &str, b: &str) -> (same: bool)
    ensures
        same == (a@ == b@),
{
    let left = a.to_owned();
    let right = b.to_owned();
    left == right
}

} // verus!
