//! An insertion-ordered map from text keys to values.

use vstd::prelude::*;

verus! {

/// A map from text keys to values that remembers the order in which its keys arrived.
pub struct StrMap<V> {
    keys: Vec<String>,
    vals: Vec<V>,
}

impl<V> View for StrMap<V> {
    type V = Map<Seq<char>, V>;

    /// The key-value pairs held, as a mathematical map.
    closed spec fn view(&self) -> Map<Seq<char>, V> {
        Map::new(
            |k: Seq<char>| self.key_seq().contains(k),
            |k: Seq<char>| self.vals@[self.key_seq().index_of(k)],
        )
    }
}

impl<V> StrMap<V> {
    /// The keys in the order of their first insertion.
    pub closed spec fn key_seq(&self) -> Seq<Seq<char>> {
        self.keys@.map_values(|k: String| k@)
    }

    /// The values, each at the position of its key in `key_seq`.
    pub closed spec fn val_seq(&self) -> Seq<V> {
        self.vals@
    }

    /// Every key has one value and no key occurs twice.
    pub closed spec fn wf(&self) -> bool {
        &&& self.keys@.len() == self.vals@.len()
        &&& self.key_seq().no_duplicates()
    }

    /// How the map view follows from the two sequences.
    pub proof fn lemma_view(&self)
        requires
            self.wf(),
        ensures
            self.key_seq().len() == self.val_seq().len(),
            self.key_seq().no_duplicates(),
            self@.dom().finite(),
            self@.len() == self.key_seq().len(),
            forall|k: Seq<char>| self@.contains_key(k) <==> self.key_seq().contains(k),
            forall|i: int|
                0 <= i < self.key_seq().len() ==> self@.contains_key(#[trigger] self.key_seq()[i])
                    && self@[self.key_seq()[i]] == self.val_seq()[i],
    {
        let ks = self.key_seq();
        assert forall|i: int| 0 <= i < ks.len() implies self@.contains_key(#[trigger] ks[i])
            && self@[ks[i]] == self.val_seq()[i] by {
            assert(ks.contains(ks[i]));
            let j = ks.index_of(ks[i]);
            assert(ks[j] == ks[i]);
        }
        assert(self@.dom() =~= ks.to_set());
        vstd::seq_lib::seq_to_set_is_finite(ks);
        ks.unique_seq_to_set();
    }

    /// An empty map.
    pub fn new() -> (m: Self)
        ensures
            m.wf(),
            m@ == Map::<Seq<char>, V>::empty(),
            m.key_seq() == Seq::<Seq<char>>::empty(),
            m.val_seq() == Seq::<V>::empty(),
    {
        let m = StrMap { keys: Vec::new(), vals: Vec::new() };
        assert(m.key_seq() =~= Seq::<Seq<char>>::empty());
        assert(m@ =~= Map::<Seq<char>, V>::empty());
        m
    }

    /// The number of keys.
    pub fn len(&self) -> (n: usize)
        requires
            self.wf(),
        ensures
            n == self.key_seq().len(),
            n == self@.len(),
    {
        proof {
            self.lemma_view();
        }
        self.keys.len()
    }

    /// Whether the map holds no key.
    pub fn is_empty(&self) -> (r: bool)
        requires
            self.wf(),
        ensures
            r == (self.key_seq().len() == 0),
            r == (self@.len() == 0),
    {
        self.len() == 0
    }

    /// The position of `key` among the keys.
    fn position(&self, key: &str) -> (r: Option<usize>)
        requires
            self.wf(),
        ensures
            r matches Some(i) ==> i < self.key_seq().len() && self.key_seq()[i as int] == key@,
            r is None ==> !self.key_seq().contains(key@),
    {
        let k = key.to_owned();
        let mut i: usize = 0;
        while i < self.keys.len()
            invariant
                i <= self.keys.len(),
                k@ == key@,
                forall|j: int| 0 <= j < i ==> self.key_seq()[j] != key@,
            decreases self.keys.len() - i,
        {
            if self.keys[i] == k {
                return Some(i);
            }
            i += 1;
        }
        None
    }

    /// Whether `key` is in the map.
    pub fn contains_key(&self, key: &str) -> (r: bool)
        requires
            self.wf(),
        ensures
            r == self@.contains_key(key@),
    {
        self.position(key).is_some()
    }

    /// The value of `key`.
    pub fn get(&self, key: &str) -> (r: Option<&V>)
        requires
            self.wf(),
        ensures
            r is Some <==> self@.contains_key(key@),
            r matches Some(v) ==> *v == self@[key@],
    {
        match self.position(key) {
            Some(i) => {
                proof {
                    self.lemma_view();
                }
                Some(&self.vals[i])
            },
            None => None,
        }
    }

    /// Gives `key` the value `value`. A new key goes to the end of the order; a key
    /// that was there keeps its place.
    pub fn insert(&mut self, key: String, value: V)
        requires
            old(self).wf(),
        ensures
            final(self).wf(),
            final(self)@ == old(self)@.insert(key@, value),
            old(self)@.contains_key(key@) ==> final(self).key_seq() == old(self).key_seq(),
            !old(self)@.contains_key(key@) ==> final(self).key_seq() == old(self).key_seq().push(
                key@,
            ) && final(self).val_seq() == old(self).val_seq().push(value),
            old(self)@.contains_key(key@) ==> final(self).val_seq() == old(self).val_seq().update(
                old(self).key_seq().index_of(key@),
                value,
            ),
    {
        proof {
            self.lemma_view();
        }
        let ghost before = *self;
        match self.position(key.as_str()) {
            Some(i) => {
                self.vals.set(i, value);
                proof {
                    assert(self.key_seq() == before.key_seq());
                    assert(before.key_seq()[i as int] == key@);
                    assert(before.key_seq().index_of(key@) == i);
                    assert(self@ =~= before@.insert(key@, value)) by {
                        assert forall|k: Seq<char>| self@.contains_key(k) implies #[trigger] self@[k]
                            == before@.insert(key@, value)[k] by {
                            let j = self.key_seq().index_of(k);
                            if j == i {
                            } else {
                            }
                        }
                    }
                }
            },
            None => {
                self.keys.push(key);
                self.vals.push(value);
                proof {
                    assert(self.key_seq() =~= before.key_seq().push(key@));
                    let ks = self.key_seq();
                    assert(ks.no_duplicates());
                    assert forall|k: Seq<char>| ks.contains(k) <==> (before.key_seq().contains(k)
                        || k == key@) by {
                        if ks.contains(k) {
                            let j = ks.index_of(k);
                            if j < before.key_seq().len() {
                                assert(before.key_seq()[j] == k);
                            }
                        }
                        if before.key_seq().contains(k) {
                            let j = before.key_seq().index_of(k);
                            assert(ks[j] == k);
                        }
                        if k == key@ {
                            assert(ks[ks.len() - 1] == k);
                        }
                    }
                    assert forall|k: Seq<char>| self@.contains_key(k) implies #[trigger] self@[k]
                        == before@.insert(key@, value)[k] by {
                        let j = ks.index_of(k);
                        if k == key@ {
                            assert(ks[ks.len() - 1] == k);
                        } else {
                            let j0 = before.key_seq().index_of(k);
                            assert(ks[j0] == k);
                        }
                    }
                    assert(self@ =~= before@.insert(key@, value));
                }
            },
        }
    }

    /// Gives the new key `key` the value `value`, at the end of the order.
    pub fn insert_new(&mut self, key: String, value: V)
        requires
            old(self).wf(),
            !old(self)@.contains_key(key@),
        ensures
            final(self).wf(),
            final(self)@ == old(self)@.insert(key@, value),
            final(self).key_seq() == old(self).key_seq().push(key@),
            final(self).val_seq() == old(self).val_seq().push(value),
    {
        proof {
            self.lemma_view();
        }
        let ghost before = *self;
        self.keys.push(key);
        self.vals.push(value);
        proof {
            assert(self.key_seq() =~= before.key_seq().push(key@));
            let ks = self.key_seq();
            assert(ks.no_duplicates());
            assert forall|k: Seq<char>| ks.contains(k) <==> (before.key_seq().contains(k) || k
                == key@) by {
                if ks.contains(k) {
                    let j = ks.index_of(k);
                    if j < before.key_seq().len() {
                        assert(before.key_seq()[j] == k);
                    }
                }
                if before.key_seq().contains(k) {
                    let j = before.key_seq().index_of(k);
                    assert(ks[j] == k);
                }
                if k == key@ {
                    assert(ks[ks.len() - 1] == k);
                }
            }
            assert forall|k: Seq<char>| self@.contains_key(k) implies #[trigger] self@[k]
                == before@.insert(key@, value)[k] by {
                let j = ks.index_of(k);
                if k == key@ {
                    assert(ks[ks.len() - 1] == k);
                } else {
                    let j0 = before.key_seq().index_of(k);
                    assert(ks[j0] == k);
                }
            }
            assert(self@ =~= before@.insert(key@, value));
        }
    }

    /// Takes `key` out of the map. Says whether it was there.
    pub fn remove(&mut self, key: &str) -> (r: bool)
        requires
            old(self).wf(),
        ensures
            final(self).wf(),
            r == old(self)@.contains_key(key@),
            final(self)@ == old(self)@.remove(key@),
            final(self).key_seq() == without(old(self).key_seq(), key@),
    {
        proof {
            self.lemma_view();
        }
        let ghost before = *self;
        match self.position(key) {
            Some(i) => {
                self.keys.remove(i);
                self.vals.remove(i);
                proof {
                    let ks0 = before.key_seq();
                    let ks = self.key_seq();
                    assert(ks =~= ks0.remove(i as int));
                    assert(ks0.contains(key@) && ks0.index_of(key@) == i) by {
                        assert(ks0[i as int] == key@);
                    }
                    assert(ks.no_duplicates()) by {
                        assert forall|a: int, b: int|
                            0 <= a < ks.len() && 0 <= b < ks.len() && a != b implies ks[a]
                            != ks[b] by {
                            let a0 = if a < i { a } else { a + 1 };
                            let b0 = if b < i { b } else { b + 1 };
                            assert(ks[a] == ks0[a0] && ks[b] == ks0[b0]);
                        }
                    }
                    assert forall|k: Seq<char>| ks.contains(k) <==> (ks0.contains(k) && k
                        != key@) by {
                        if ks.contains(k) {
                            let j = ks.index_of(k);
                            let j0 = if j < i { j } else { j + 1 };
                            assert(ks0[j0] == k);
                        }
                        if ks0.contains(k) && k != key@ {
                            let j0 = ks0.index_of(k);
                            let j = if j0 < i { j0 } else { j0 - 1 };
                            assert(ks[j] == k);
                        }
                    }
                    assert forall|k: Seq<char>| self@.contains_key(k) implies #[trigger] self@[k]
                        == before@[k] by {
                        let j = ks.index_of(k);
                        let j0 = if j < i { j } else { j + 1 };
                        assert(ks0[j0] == k);
                        assert(ks0.index_of(k) == j0);
                    }
                    assert(self@ =~= before@.remove(key@));
                }
                true
            },
            None => {
                proof {
                    assert(self@ =~= before@.remove(key@));
                }
                false
            },
        }
    }

    /// Takes every key out of the map.
    pub fn clear(&mut self)
        ensures
            final(self).wf(),
            final(self)@ == Map::<Seq<char>, V>::empty(),
            final(self).key_seq() == Seq::<Seq<char>>::empty(),
    {
        self.keys.clear();
        self.vals.clear();
        assert(self.key_seq() =~= Seq::<Seq<char>>::empty());
        assert(self@ =~= Map::<Seq<char>, V>::empty());
    }

    /// The key at position `i` of the order.
    pub fn key_at(&self, i: usize) -> (k: &String)
        requires
            self.wf(),
            i < self.key_seq().len(),
        ensures
            k@ == self.key_seq()[i as int],
    {
        &self.keys[i]
    }

    /// The value of the key at position `i` of the order.
    pub fn value_at(&self, i: usize) -> (v: &V)
        requires
            self.wf(),
            i < self.key_seq().len(),
        ensures
            *v == self.val_seq()[i as int],
            *v == self@[self.key_seq()[i as int]],
    {
        proof {
            self.lemma_view();
        }
        &self.vals[i]
    }
}

/// `s` without the first occurrence of `key`.
pub open spec fn without(s: Seq<Seq<char>>, key: Seq<char>) -> Seq<Seq<char>> {
    if s.contains(key) {
        s.remove(s.index_of(key))
    } else {
        s
    }
}

} // verus!
