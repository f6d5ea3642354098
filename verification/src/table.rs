//! A table from texts to values, in which no key occurs twice.

use vstd::prelude::*;

verus! {

/// The entries of the table, in no particular order.
pub struct Table<V> {
    entries: Vec<(String, V)>,
}

impl<V> Table<V> {
    /// The keys, each once, in the order in which the entries are held.
    pub closed spec fn keys(&self) -> Seq<Seq<char>> {
        Seq::new(self.entries@.len(), |i: int| self.entries@[i].0@)
    }

    #[verifier::type_invariant]
    spec fn inv(self) -> bool {
        self.keys().no_duplicates()
    }
}

impl<V> View for Table<V> {
    type V = Map<Seq<char>, V>;

    closed spec fn view(&self) -> Map<Seq<char>, V> {
        Map::new(
            |key: Seq<char>| self.keys().contains(key),
            |key: Seq<char>| self.entries@[self.keys().index_of(key)].1,
        )
    }
}

impl<V> Table<V> {
    proof fn lemma_entry(self, i: int)
        requires
            self.keys().no_duplicates(),
            0 <= i < self.entries@.len(),
        ensures
            self@.contains_key(self.keys()[i]),
            self@[self.keys()[i]] == self.entries@[i].1,
    {
        let key = self.keys()[i];
        assert(self.keys().contains(key));
        let j = self.keys().index_of(key);
        assert(self.keys()[j] == key);
    }

    proof fn lemma_size(self)
        requires
            self.keys().no_duplicates(),
        ensures
            self.keys().to_set() == self@.dom(),
            self@.dom().finite(),
            self@.len() == self.entries@.len(),
    {
        self.keys().unique_seq_to_set();
        assert(self.keys().to_set() =~= self@.dom());
        vstd::seq_lib::seq_to_set_is_finite(self.keys());
    }

    /// A table without entries.
    pub fn new() -> (r: Self)
        ensures
            r@ == Map::<Seq<char>, V>::empty(),
    {
        let r = Table { entries: Vec::new() };
        assert(r@ =~= Map::<Seq<char>, V>::empty());
        r
    }

    /// The number of entries.
    pub fn len(&self) -> (r: usize)
        ensures
            r == self@.len(),
            r == self.keys().len(),
            self@.dom().finite(),
            self.keys().no_duplicates(),
            self.keys().to_set() == self@.dom(),
    {
        proof {
            use_type_invariant(self);
            self.lemma_size();
        }
        self.entries.len()
    }

    /// The value of the entry at `i`.
    pub fn value_at(&self, i: usize) -> (r: &V)
        requires
            i < self.keys().len(),
        ensures
            self@.contains_key(self.keys()[i as int]),
            *r == self@[self.keys()[i as int]],
    {
        proof {
            use_type_invariant(self);
            self.lemma_entry(i as int);
        }
        &self.entries[i].1
    }

    fn find(&self, key: &str) -> (r: Option<usize>)
        ensures
            match r {
                Some(i) => i < self.entries@.len() && self.keys()[i as int] == key@
                    && self@.contains_key(key@) && self@[key@] == self.entries@[i as int].1,
                None => !self@.contains_key(key@),
            },
    {
        proof {
            use_type_invariant(self);
        }
        for i in 0..self.entries.len()
            invariant
                self.keys().no_duplicates(),
                forall|j: int| 0 <= j < i ==> #[trigger] self.keys()[j] != key@,
        {
            if *self.entries[i].0.as_str() == *key {
                proof {
                    self.lemma_entry(i as int);
                }
                return Some(i);
            }
        }
        None
    }

    /// Whether the key has an entry.
    pub fn contains_key(&self, key: &str) -> (r: bool)
        ensures
            r == self@.contains_key(key@),
    {
        self.find(key).is_some()
    }

    /// The value of the key.
    pub fn get(&self, key: &str) -> (r: Option<&V>)
        ensures
            match r {
                Some(value) => self@.contains_key(key@) && self@[key@] == *value,
                None => !self@.contains_key(key@),
            },
    {
        match self.find(key) {
            Some(i) => Some(&self.entries[i].1),
            None => None,
        }
    }

    /// Takes out one entry, whichever it is.
    pub fn pop(&mut self) -> (r: Option<(String, V)>)
        ensures
            match r {
                Some((key, value)) => old(self)@.contains_key(key@) && old(self)@[key@] == value
                    && final(self)@ == old(self)@.remove(key@) && final(self)@.len() + 1 == old(
                    self,
                )@.len(),
                None => old(self)@ == Map::<Seq<char>, V>::empty() && final(self)@ == old(self)@,
            },
            old(self)@.dom().finite(),
    {
        proof {
            use_type_invariant(&*self);
            self.lemma_size();
        }
        let ghost before = *self;
        let mut entries: Vec<(String, V)> = Vec::new();
        std::mem::swap(&mut entries, &mut self.entries);
        let r = entries.pop();
        proof {
            let after = Table { entries };
            if before.entries@.len() > 0 {
                let n = before.entries@.len() - 1;
                before.lemma_entry(n);
                assert(after.keys() =~= before.keys().subrange(0, n));
                assert(after@ =~= before@.remove(before.keys()[n])) by {
                    assert forall|key: Seq<char>| after@.contains_key(key) == before@.remove(
                        before.keys()[n],
                    ).contains_key(key) by {
                        if before.keys().contains(key) && key != before.keys()[n] {
                            let j = before.keys().index_of(key);
                            assert(after.keys()[j] == key);
                        }
                        if after.keys().contains(key) {
                            let j = after.keys().index_of(key);
                            assert(before.keys()[j] == key);
                        }
                    }
                    assert forall|key: Seq<char>| after@.contains_key(key) implies after@[key]
                        == before@[key] by {
                        let j = after.keys().index_of(key);
                        after.lemma_entry(j);
                        before.lemma_entry(j);
                    }
                }
                after.lemma_size();
            } else {
                assert(before@ =~= Map::<Seq<char>, V>::empty());
                assert(after@ =~= before@);
            }
        }
        self.entries = entries;
        r
    }

    /// Adds an entry for a key that has none.
    pub fn push_new(&mut self, key: String, value: V)
        requires
            !old(self)@.contains_key(key@),
        ensures
            final(self)@ == old(self)@.insert(key@, value),
    {
        proof {
            use_type_invariant(&*self);
        }
        let ghost before = *self;
        let mut entries: Vec<(String, V)> = Vec::new();
        std::mem::swap(&mut entries, &mut self.entries);
        entries.push((key, value));
        proof {
            let after = Table { entries };
            let n = before.entries@.len() as int;
            assert(after.keys() =~= before.keys().push(key@));
            assert(after.keys().no_duplicates()) by {
                assert forall|i: int, j: int|
                    0 <= i < after.keys().len() && 0 <= j < after.keys().len() && i
                        != j implies after.keys()[i] != after.keys()[j] by {
                    if i == n {
                        assert(before.keys().contains(before.keys()[j]));
                    } else if j == n {
                        assert(before.keys().contains(before.keys()[i]));
                    }
                }
            }
            assert(after@ =~= before@.insert(key@, value)) by {
                after.lemma_entry(n);
                assert forall|k: Seq<char>| after@.contains_key(k) == before@.insert(
                    key@,
                    value,
                ).contains_key(k) by {
                    if before.keys().contains(k) {
                        let j = before.keys().index_of(k);
                        assert(after.keys()[j] == k);
                    }
                    if after.keys().contains(k) && k != key@ {
                        let j = after.keys().index_of(k);
                        assert(before.keys()[j] == k);
                    }
                }
                assert forall|k: Seq<char>| after@.contains_key(k) && k != key@ implies after@[k]
                    == before@[k] by {
                    let j = after.keys().index_of(k);
                    after.lemma_entry(j);
                    before.lemma_entry(j);
                }
            }
        }
        self.entries = entries;
    }

    /// Takes out the entry at `i`.
    pub fn take_at(&mut self, i: usize) -> (r: (String, V))
        requires
            i < old(self).keys().len(),
        ensures
            r.0@ == old(self).keys()[i as int],
            old(self)@.contains_key(r.0@),
            r.1 == old(self)@[r.0@],
            final(self)@ == old(self)@.remove(r.0@),
    {
        proof {
            use_type_invariant(&*self);
            self.lemma_entry(i as int);
        }
        let ghost before = *self;
        let mut entries: Vec<(String, V)> = Vec::new();
        std::mem::swap(&mut entries, &mut self.entries);
        let r = entries.remove(i);
        proof {
            let after = Table { entries };
            let gone = before.keys()[i as int];
            assert(after.keys() =~= before.keys().remove(i as int));
            assert forall|j: int| 0 <= j < after.keys().len() implies after.keys()[j]
                == before.keys()[if j < i { j } else { j + 1 }] by {}
            assert(after@ =~= before@.remove(gone)) by {
                assert forall|k: Seq<char>| after@.contains_key(k) == before@.remove(
                    gone,
                ).contains_key(k) by {
                    if before.keys().contains(k) && k != gone {
                        let j = before.keys().index_of(k);
                        assert(after.keys()[if j < i { j } else { j - 1 }] == k);
                    }
                    if after.keys().contains(k) {
                        let j = after.keys().index_of(k);
                        assert(before.keys()[if j < i { j } else { j + 1 }] == k);
                    }
                }
                assert forall|k: Seq<char>| after@.contains_key(k) implies after@[k]
                    == before@[k] by {
                    let j = after.keys().index_of(k);
                    after.lemma_entry(j);
                    before.lemma_entry(if j < i { j } else { j + 1 });
                }
            }
        }
        self.entries = entries;
        r
    }

    /// Takes out the entry of the key, if it has one.
    pub fn remove(&mut self, key: &str) -> (r: Option<V>)
        ensures
            final(self)@ == old(self)@.remove(key@),
            match r {
                Some(value) => old(self)@.contains_key(key@) && value == old(self)@[key@],
                None => !old(self)@.contains_key(key@),
            },
    {
        match self.find(key) {
            Some(i) => {
                let (_, value) = self.take_at(i);
                Some(value)
            },
            None => {
                assert(self@.remove(key@) =~= self@);
                None
            },
        }
    }

    /// Gives the key the value, in place of the one that it may have.
    pub fn insert(&mut self, key: String, value: V)
        ensures
            final(self)@ == old(self)@.insert(key@, value),
    {
        let _ = self.remove(key.as_str());
        self.push_new(key, value);
        assert(self@ =~= old(self)@.insert(key@, value));
    }
}

} // verus!
