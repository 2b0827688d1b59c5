//! Maps keyed by text.

use vstd::prelude::*;

use crate::text::same_text;
use crate::text::texts;

verus! {

/// A map from texts to values, which keeps its keys in the order in which they came.
#[derive(Clone, Debug)]
pub struct StringMap<V> {
    keys: Vec<String>,
    values: Vec<V>,
}

impl<V> View for StringMap<V> {
    type V = Map<Seq<char>, V>;

    closed spec fn view(&self) -> Map<Seq<char>, V> {
        Map::new(
            |key: Seq<char>| texts(self.keys@).contains(key),
            |key: Seq<char>| self.values@[texts(self.keys@).index_of(key)],
        )
    }
}

impl<V> StringMap<V> {
    /// No key occurs twice, and each has a value.
    pub closed spec fn wf(&self) -> bool {
        &&& self.keys@.len() == self.values@.len()
        &&& texts(self.keys@).no_duplicates()
    }

    /// The keys, in the order in which they came.
    pub closed spec fn order(&self) -> Seq<Seq<char>> {
        texts(self.keys@)
    }

    /// The order of a map lists its keys, each once.
    pub proof fn lemma_order(&self)
        requires
            self.wf(),
        ensures
            self.order().no_duplicates(),
            self.order().to_set() == self@.dom(),
            self@.dom().finite(),
            self.order().len() == self@.dom().len(),
            forall|key: Seq<char>| #[trigger]
                self.order().contains(key) <==> self@.contains_key(key),
    {
        self.order().unique_seq_to_set();
        assert(self.order().to_set() =~= self@.dom());
    }

    proof fn lemma_at(&self, at: int)
        requires
            self.wf(),
            0 <= at < self.keys@.len(),
        ensures
            self@.contains_key(self.keys@[at]@),
            self@[self.keys@[at]@] == self.values@[at],
            texts(self.keys@).index_of(self.keys@[at]@) == at,
    {
        let all = texts(self.keys@);
        assert(all[at] == self.keys@[at]@);
        assert(all.contains(all[at]));
        let found = all.index_of(all[at]);
        assert(0 <= found < all.len() && all[found] == all[at]);
    }

    /// A value changed in place.
    proof fn lemma_changed(&self, after: StringMap<V>, at: int, changed: V)
        requires
            self.wf(),
            0 <= at < self.keys@.len(),
            after.keys == self.keys,
            after.values@ == self.values@.update(at, changed),
        ensures
            after.wf(),
            after@ == self@.insert(self.keys@[at]@, changed),
    {
        let key = self.keys@[at]@;
        self.lemma_at(at);
        assert forall|k: Seq<char>| after@.contains_key(k) implies after@[k] == self@.insert(
            key,
            changed,
        )[k] by {
            let i = texts(self.keys@).index_of(k);
            assert(texts(self.keys@)[i] == k);
        }
        assert(after@ =~= self@.insert(key, changed));
    }

    /// An empty map.
    pub fn new() -> (map: StringMap<V>)
        ensures
            map.wf(),
            map@ == Map::<Seq<char>, V>::empty(),
            map.order() == Seq::<Seq<char>>::empty(),
    {
        let map = StringMap { keys: Vec::new(), values: Vec::new() };
        assert(texts(map.keys@) =~= Seq::<Seq<char>>::empty());
        assert(map@ =~= Map::<Seq<char>, V>::empty());
        map
    }

    /// The number of keys.
    pub fn len(&self) -> (count: usize)
        requires
            self.wf(),
        ensures
            count == self@.dom().len(),
            count == self.order().len(),
    {
        proof {
            self.lemma_order();
        }
        self.keys.len()
    }

    /// The place of a key, or the number of keys.
    fn place(&self, key: &str) -> (at: usize)
        requires
            self.wf(),
        ensures
            at <= self.keys@.len(),
            at < self.keys@.len() ==> self.keys@[at as int]@ == key@ && self@.contains_key(key@)
                && self@[key@] == self.values@[at as int],
            at == self.keys@.len() ==> !self@.contains_key(key@),
            at < self.keys@.len() <==> self@.contains_key(key@),
    {
        let mut at: usize = 0;
        while at < self.keys.len()
            invariant
                self.wf(),
                at <= self.keys@.len(),
                forall|i: int| 0 <= i < at ==> self.keys@[i]@ != key@,
            decreases self.keys@.len() - at,
        {
            if same_text(self.keys[at].as_str(), key) {
                proof {
                    self.lemma_at(at as int);
                }
                return at;
            }
            at += 1;
        }
        assert(!texts(self.keys@).contains(key@)) by {
            if texts(self.keys@).contains(key@) {
                let i = choose|i: int| 0 <= i < self.keys@.len() && texts(self.keys@)[i] == key@;
                assert(self.keys@[i]@ == key@);
            }
        }
        at
    }

    /// Whether the map has a key.
    pub fn contains_key(&self, key: &str) -> (held: bool)
        requires
            self.wf(),
        ensures
            held == self@.contains_key(key@),
    {
        self.place(key) < self.keys.len()
    }

    /// The value of a key.
    pub fn get(&self, key: &str) -> (value: Option<&V>)
        requires
            self.wf(),
        ensures
            match value {
                Some(value) => self@.contains_key(key@) && *value == self@[key@],
                None => !self@.contains_key(key@),
            },
    {
        let at = self.place(key);
        if at < self.keys.len() {
            Some(&self.values[at])
        } else {
            None
        }
    }

    /// The value of a key, to change it in place.
    pub fn get_mut(&mut self, key: &str) -> (value: Option<&mut V>)
        requires
            old(self).wf(),
        ensures
            final(self).wf(),
            final(self).order() == old(self).order(),
            match value {
                Some(value) => {
                    &&& old(self)@.contains_key(key@)
                    &&& *value == old(self)@[key@]
                    &&& final(self)@ == old(self)@.insert(key@, *final(value))
                },
                None => !old(self)@.contains_key(key@) && *final(self) == *old(self),
            },
    {
        let at = self.place(key);
        if at < self.keys.len() {
            proof {
                let before = *self;
                assert forall|after: StringMap<V>, changed: V|
                    after.keys == before.keys && after.values@ == #[trigger] before.values@.update(
                        at as int,
                        changed,
                    ) implies #[trigger] after.wf() && after@ == before@.insert(key@, changed) by {
                    before.lemma_changed(after, at as int, changed);
                }
            }
            Some(&mut self.values[at])
        } else {
            None
        }
    }

    /// Gives a key a value; the value that it had is handed back.
    pub fn insert(&mut self, key: String, value: V) -> (replaced: Option<V>)
        requires
            old(self).wf(),
        ensures
            final(self).wf(),
            final(self)@ == old(self)@.insert(key@, value),
            match replaced {
                Some(before) => old(self)@.contains_key(key@) && before == old(self)@[key@],
                None => !old(self)@.contains_key(key@),
            },
            final(self).order() == (if old(self)@.contains_key(key@) {
                old(self).order()
            } else {
                old(self).order().push(key@)
            }),
    {
        let at = self.place(key.as_str());
        let ghost before = *self;
        if at < self.keys.len() {
            let mut held = value;
            std::mem::swap(&mut self.values[at], &mut held);
            proof {
                before.lemma_changed(*self, at as int, value);
            }
            Some(held)
        } else {
            self.keys.push(key);
            self.values.push(value);
            proof {
                let all = texts(self.keys@);
                let earlier = texts(before.keys@);
                assert(all =~= earlier.push(key@));
                assert(!earlier.contains(key@));
                assert(all.no_duplicates());
                assert forall|k: Seq<char>| #[trigger] all.contains(k) <==> earlier.contains(k) || k
                    == key@ by {
                    if earlier.contains(k) {
                        let i = choose|i: int| 0 <= i < earlier.len() && earlier[i] == k;
                        assert(all[i] == k);
                    }
                    if k == key@ {
                        assert(all[earlier.len() as int] == k);
                    }
                }
                assert forall|k: Seq<char>| #[trigger] all.contains(k) implies self@[k]
                    == before@.insert(key@, value)[k] by {
                    if k == key@ {
                        self.lemma_at(earlier.len() as int);
                    } else {
                        let i = choose|i: int| 0 <= i < earlier.len() && earlier[i] == k;
                        assert(before.keys@[i]@ == k);
                        before.lemma_at(i);
                        assert(self.keys@[i]@ == k);
                        self.lemma_at(i);
                    }
                }
                assert(self@ =~= before@.insert(key@, value));
            }
            None
        }
    }

    /// Takes a key out; the value that it had is handed back.
    pub fn remove(&mut self, key: &str) -> (removed: Option<V>)
        requires
            old(self).wf(),
        ensures
            final(self).wf(),
            final(self)@ == old(self)@.remove(key@),
            match removed {
                Some(value) => old(self)@.contains_key(key@) && value == old(self)@[key@],
                None => !old(self)@.contains_key(key@) && *final(self) == *old(self),
            },
    {
        let at = self.place(key);
        let ghost before = *self;
        if at < self.keys.len() {
            self.keys.remove(at);
            let value = self.values.remove(at);
            proof {
                let all = texts(self.keys@);
                let earlier = texts(before.keys@);
                assert(all =~= earlier.remove(at as int));
                assert(all.no_duplicates()) by {
                    assert forall|i: int, j: int| 0 <= i < j < all.len() implies all[i]
                        != all[j] by {
                        let left = if i < at { i } else { i + 1 };
                        let right = if j < at { j } else { j + 1 };
                        assert(all[i] == earlier[left] && all[j] == earlier[right]);
                    }
                }
                assert forall|k: Seq<char>| #[trigger] all.contains(k) <==> earlier.contains(k) && k
                    != key@ by {
                    if all.contains(k) {
                        let i = choose|i: int| 0 <= i < all.len() && all[i] == k;
                        let source = if i < at { i } else { i + 1 };
                        assert(earlier[source] == k);
                        assert(earlier[at as int] == key@);
                    }
                    if earlier.contains(k) && k != key@ {
                        let i = choose|i: int| 0 <= i < earlier.len() && earlier[i] == k;
                        assert(earlier[at as int] == key@);
                        let target = if i < at { i } else { i - 1 };
                        assert(all[target] == k);
                    }
                }
                assert forall|k: Seq<char>| #[trigger] all.contains(k) implies self@[k]
                    == before@[k] by {
                    let i = choose|i: int| 0 <= i < all.len() && all[i] == k;
                    assert(self.keys@[i]@ == k);
                    self.lemma_at(i);
                    let source = if i < at { i } else { i + 1 };
                    assert(before.keys@[source]@ == k);
                    before.lemma_at(source);
                }
                assert(self@ =~= before@.remove(key@));
            }
            Some(value)
        } else {
            proof {
                assert(self@ =~= before@.remove(key@));
            }
            None
        }
    }

    /// The keys, in the order in which they came.
    pub fn keys(&self) -> (keys: Vec<String>)
        requires
            self.wf(),
        ensures
            texts(keys@) == self.order(),
    {
        let mut keys: Vec<String> = Vec::new();
        let mut at: usize = 0;
        while at < self.keys.len()
            invariant
                at <= self.keys@.len(),
                keys@ == self.keys@.take(at as int),
            decreases self.keys@.len() - at,
        {
            keys.push(self.keys[at].clone());
            at += 1;
        }
        assert(keys@ =~= self.keys@);
        keys
    }
}

} // verus!
