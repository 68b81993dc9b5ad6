//! A map whose keys are texts.
use vstd::prelude::*;

use crate::text::same_text;

verus! {

/// A map from texts to values, which remembers the order in which its keys first came.
pub struct TextMap<V> {
    entries: Vec<(String, V)>,
}

impl<V> TextMap<V> {
    /// The keys, in the order in which they first came.
    pub closed spec fn order(&self) -> Seq<Seq<char>> {
        Seq::new(self.entries@.len(), |i: int| self.entries@[i].0@)
    }

    /// No key has two entries.
    #[verifier::type_invariant]
    spec fn keys_are_distinct(&self) -> bool {
        self.order().no_duplicates()
    }

    /// The keys of the map are those of its order.
    pub proof fn lemma_order(&self)
        ensures
            forall|key: Seq<char>| #[trigger]
                self@.contains_key(key) <==> self.order().contains(key),
    {
    }

    /// What the map holds under the key in slot `i`.
    proof fn lemma_slot(&self, i: int)
        requires
            self.order().no_duplicates(),
            0 <= i < self.entries@.len(),
        ensures
            self@.contains_key(self.order()[i]),
            self@[self.order()[i]] == self.entries@[i].1,
    {
        let key = self.order()[i];
        assert(self.order().contains(key));
        let j = self.order().index_of(key);
        assert(self.order()[j] == key);
    }

    /// The empty map.
    pub fn new() -> (r: TextMap<V>)
        ensures
            r@ == Map::<Seq<char>, V>::empty(),
            r.order() == Seq::<Seq<char>>::empty(),
    {
        let r = TextMap { entries: Vec::new() };
        assert(r@ == Map::<Seq<char>, V>::empty());
        r
    }

    /// The number of keys.
    pub fn len(&self) -> (r: usize)
        ensures
            r == self.order().len(),
            self.order().no_duplicates(),
    {
        proof {
            use_type_invariant(self);
        }
        self.entries.len()
    }

    /// The slot of a key.
    fn slot(&self, key: &str) -> (r: Option<usize>)
        ensures
            match r {
                Some(i) => i < self.entries@.len() && self.order()[i as int] == key@,
                None => !self.order().contains(key@),
            },
    {
        let mut i: usize = 0;
        while i < self.entries.len()
            invariant
                i <= self.entries@.len(),
                forall|j: int| 0 <= j < i ==> #[trigger] self.order()[j] != key@,
            decreases self.entries@.len() - i,
        {
            if same_text(self.entries[i].0.as_str(), key) {
                return Some(i);
            }
            i = i + 1;
        }
        None
    }

    /// The value under a key.
    pub fn get(&self, key: &str) -> (r: Option<&V>)
        ensures
            match r {
                Some(value) => self@.contains_key(key@) && *value == self@[key@],
                None => !self@.contains_key(key@),
            },
    {
        proof {
            use_type_invariant(self);
        }
        match self.slot(key) {
            Some(i) => {
                proof {
                    self.lemma_slot(i as int);
                }
                Some(&self.entries[i].1)
            },
            None => None,
        }
    }

    /// The key in slot `i`.
    pub fn key_at(&self, i: usize) -> (r: &String)
        requires
            i < self.order().len(),
        ensures
            r@ == self.order()[i as int],
    {
        &self.entries[i].0
    }

    /// The value under the key in slot `i`.
    pub fn value_at(&self, i: usize) -> (r: &V)
        requires
            i < self.order().len(),
        ensures
            self@.contains_key(self.order()[i as int]),
            *r == self@[self.order()[i as int]],
    {
        proof {
            use_type_invariant(self);
            self.lemma_slot(i as int);
        }
        &self.entries[i].1
    }

    /// Puts `value` under `key`, in place of what was there.
    pub fn insert(&mut self, key: String, value: V)
        ensures
            final(self)@ == old(self)@.insert(key@, value),
            final(self).order() == if old(self)@.contains_key(key@) {
                old(self).order()
            } else {
                old(self).order().push(key@)
            },
    {
        proof {
            use_type_invariant(&*self);
        }
        let ghost before = *self;
        let found = self.slot(key.as_str());
        let mut entries: Vec<(String, V)> = Vec::new();
        std::mem::swap(&mut entries, &mut self.entries);
        let ghost name = key@;
        match found {
            Some(i) => {
                entries.set(i, (key, value));
            },
            None => {
                entries.push((key, value));
            },
        }
        let ghost after = TextMap { entries };
        proof {
            match found {
                Some(i) => {
                    before.lemma_slot(i as int);
                    assert(after.order() == before.order());
                },
                None => {
                    assert(after.order() == before.order().push(name));
                },
            }
            assert(after.order().no_duplicates());
            assert forall|k: Seq<char>| #[trigger]
                after@.contains_key(k) implies before@.insert(name, value).contains_key(k)
                && after@[k] == before@.insert(name, value)[k] by {
                let j = after.order().index_of(k);
                assert(after.order()[j] == k);
                after.lemma_slot(j);
                if k != name {
                    assert(before.order()[j] == k);
                    before.lemma_slot(j);
                }
            }
            assert forall|k: Seq<char>| #[trigger]
                before@.insert(name, value).contains_key(k) implies after@.contains_key(k) by {
                if k != name {
                    let j = before.order().index_of(k);
                    assert(after.order()[j] == k);
                } else {
                    match found {
                        Some(i) => {
                            assert(after.order()[i as int] == name);
                        },
                        None => {
                            assert(after.order()[before.order().len() as int] == name);
                        },
                    }
                }
            }
            assert(after@ == before@.insert(name, value));
        }
        *self = TextMap { entries };
    }

    /// Takes the value under `key` out, and the key with it.
    pub fn remove(&mut self, key: &str) -> (r: Option<V>)
        ensures
            final(self)@ == old(self)@.remove(key@),
            match r {
                Some(value) => old(self)@.contains_key(key@) && value == old(self)@[key@],
                None => !old(self)@.contains_key(key@),
            },
    {
        proof {
            use_type_invariant(&*self);
        }
        let ghost before = *self;
        match self.slot(key) {
            Some(i) => {
                let mut entries: Vec<(String, V)> = Vec::new();
                std::mem::swap(&mut entries, &mut self.entries);
                let entry = entries.remove(i);
                let ghost after = TextMap { entries };
                proof {
                    before.lemma_slot(i as int);
                    assert(after.order() == before.order().remove(i as int));
                    assert(after.order().no_duplicates());
                    assert forall|k: Seq<char>| #[trigger]
                        after@.contains_key(k) implies before@.remove(key@).contains_key(k)
                        && after@[k] == before@[k] by {
                        let j = after.order().index_of(k);
                        assert(after.order()[j] == k);
                        after.lemma_slot(j);
                        let m = if j < i {
                            j
                        } else {
                            j + 1
                        };
                        assert(before.order()[m] == k);
                        before.lemma_slot(m);
                    }
                    assert forall|k: Seq<char>| #[trigger]
                        before@.remove(key@).contains_key(k) implies after@.contains_key(k) by {
                        let j = before.order().index_of(k);
                        assert(before.order()[j] == k);
                        let m = if j < i {
                            j
                        } else {
                            j - 1
                        };
                        assert(after.order()[m] == k);
                    }
                    assert(after@ == before@.remove(key@));
                }
                *self = TextMap { entries };
                Some(entry.1)
            },
            None => {
                assert(self@ == before@.remove(key@));
                None
            },
        }
    }

    /// Takes everything out.
    pub fn clear(&mut self)
        ensures
            final(self)@ == Map::<Seq<char>, V>::empty(),
            final(self).order() == Seq::<Seq<char>>::empty(),
    {
        *self = TextMap::new();
    }
}

impl<V> View for TextMap<V> {
    type V = Map<Seq<char>, V>;

    closed spec fn view(&self) -> Map<Seq<char>, V> {
        Map::new(
            |key: Seq<char>| self.order().contains(key),
            |key: Seq<char>| self.entries@[self.order().index_of(key)].1,
        )
    }
}

} // verus!
