//! A small map from string ids to values, kept in insertion order.
//!
//! Workers address each other by string id. The table holds what a worker
//! knows under such ids: at most one value per id, looked up by comparing
//! strings. Its view is a mathematical map from the characters of an id to
//! the value stored under it.

use vstd::prelude::*;

verus! {

struct Entry<V> {
    key: String,
    value: V,
}

/// A map from `String` keys to values of type `V`.
pub struct Table<V> {
    entries: Vec<Entry<V>>,
}

impl<V> View for Table<V> {
    type V = Map<Seq<char>, V>;

    closed spec fn view(&self) -> Map<Seq<char>, V> {
        Map::new(
            |key: Seq<char>| self.keys().contains(key),
            |key: Seq<char>| self.entries@[self.keys().index_of(key)].value,
        )
    }
}

impl<V> Table<V> {
    /// The keys of the table, in the order in which `values` hands their values out.
    pub closed spec fn keys(&self) -> Seq<Seq<char>> {
        Seq::new(self.entries@.len(), |i: int| self.entries@[i].key@)
    }

    /// No key stands in the table twice. Every table this module hands out is
    /// well formed, and every operation keeps it so.
    pub closed spec fn wf(&self) -> bool {
        self.keys().no_duplicates()
    }

    /// Each entry is found in the view under its own key, and the view holds nothing else.
    proof fn lemma_view(&self)
        requires
            self.wf(),
        ensures
            self.keys().len() == self.entries@.len(),
            forall|i: int|
                0 <= i < self.entries@.len() ==> #[trigger] self.keys()[i] == self.entries@[i].key@,
            forall|i: int|
                0 <= i < self.entries@.len() ==> self@.contains_key(#[trigger] self.keys()[i])
                    && self@[self.keys()[i]] == self.entries@[i].value,
            forall|key: Seq<char>| self@.contains_key(key) <==> self.keys().contains(key),
            self.keys().to_set() == self@.dom(),
            self@.dom().finite(),
            self@.dom().len() == self.entries@.len(),
    {
        let keys = self.keys();
        assert forall|i: int| 0 <= i < self.entries@.len() implies self@.contains_key(
            #[trigger] keys[i],
        ) && self@[keys[i]] == self.entries@[i].value by {
            assert(keys.contains(keys[i]));
            let j = keys.index_of(keys[i]);
            assert(0 <= j < keys.len() && keys[j] == keys[i]);
        }
        assert(keys.to_set() =~= self@.dom());
        vstd::seq_lib::seq_to_set_is_finite(keys);
        keys.unique_seq_to_set();
    }

    /// An empty table.
    pub fn new() -> (table: Self)
        ensures
            table.wf(),
            table@ == Map::<Seq<char>, V>::empty(),
            table.keys() == Seq::<Seq<char>>::empty(),
    {
        let table = Table { entries: Vec::new() };
        proof {
            assert(table.keys() =~= Seq::<Seq<char>>::empty());
            assert(table@ =~= Map::<Seq<char>, V>::empty());
        }
        table
    }

    /// The number of keys.
    pub fn len(&self) -> (n: usize)
        requires
            self.wf(),
        ensures
            self@.dom().finite(),
            n == self@.len(),
            n == self.keys().len(),
    {
        proof {
            self.lemma_view();
        }
        self.entries.len()
    }

    /// Whether the table holds no key at all.
    pub fn is_empty(&self) -> (empty: bool)
        requires
            self.wf(),
        ensures
            empty == self@.is_empty(),
    {
        proof {
            self.lemma_view();
            if self.entries@.len() > 0 {
                assert(self@.contains_key(self.keys()[0]));
            }
        }
        self.entries.len() == 0
    }

    /// Where `key` stands among the entries, if it is there.
    fn position(&self, key: &String) -> (at: Option<usize>)
        ensures
            match at {
                Some(i) => i < self.entries@.len() && self.entries@[i as int].key@ == key@,
                None => !self.keys().contains(key@),
            },
    {
        let mut i: usize = 0;
        while i < self.entries.len()
            invariant
                i <= self.entries@.len(),
                forall|j: int| 0 <= j < i ==> self.entries@[j].key@ != key@,
            decreases self.entries@.len() - i,
        {
            if self.entries[i].key == *key {
                return Some(i);
            }
            i += 1;
        }
        None
    }

    /// Whether a value is stored under `key`.
    pub fn contains_key(&self, key: &String) -> (found: bool)
        requires
            self.wf(),
        ensures
            found == self@.contains_key(key@),
    {
        proof {
            self.lemma_view();
        }
        match self.position(key) {
            Some(i) => {
                assert(self.keys()[i as int] == key@);
                true
            },
            None => false,
        }
    }

    /// The value stored under `key`, if there is one.
    pub fn get(&self, key: &String) -> (value: Option<&V>)
        requires
            self.wf(),
        ensures
            match value {
                Some(v) => self@.contains_key(key@) && *v == self@[key@],
                None => !self@.contains_key(key@),
            },
    {
        proof {
            self.lemma_view();
        }
        match self.position(key) {
            Some(i) => {
                assert(self.keys()[i as int] == key@);
                Some(&self.entries[i].value)
            },
            None => None,
        }
    }

    /// Stores `value` under `key` and hands back what was stored there before.
    pub fn insert(&mut self, key: String, value: V) -> (previous: Option<V>)
        requires
            old(self).wf(),
        ensures
            final(self).wf(),
            final(self)@ == old(self)@.insert(key@, value),
            previous == if old(self)@.contains_key(key@) {
                Some(old(self)@[key@])
            } else {
                None::<V>
            },
    {
        proof {
            self.lemma_view();
        }
        let ghost before = *self;
        match self.position(&key) {
            Some(i) => {
                assert(before.keys()[i as int] == key@);
                let replaced = self.entries.remove(i);
                proof {
                    assert(self.keys() =~= before.keys().remove(i as int));
                }
                self.entries.insert(i, Entry { key, value });
                proof {
                    assert(self.keys() =~= before.keys());
                    self.lemma_view();
                    assert forall|k: Seq<char>| #[trigger]
                        self@.contains_key(k) implies self@[k] == before@.insert(key@, value)[k] by {
                        let j = self.keys().index_of(k);
                        assert(0 <= j < self.keys().len() && self.keys()[j] == k);
                        if j != i as int {
                            assert(before.keys()[j] == k);
                        }
                    }
                    assert(self@ =~= before@.insert(key@, value));
                }
                Some(replaced.value)
            },
            None => {
                self.entries.push(Entry { key, value });
                proof {
                    assert(self.keys() =~= before.keys().push(key@));
                    self.lemma_view();
                    assert forall|k: Seq<char>| #[trigger]
                        self@.contains_key(k) implies before@.insert(key@, value).contains_key(k)
                        && self@[k] == before@.insert(key@, value)[k] by {
                        let j = self.keys().index_of(k);
                        assert(0 <= j < self.keys().len() && self.keys()[j] == k);
                        if j < before.keys().len() {
                            assert(before.keys()[j] == k);
                        }
                    }
                    assert forall|k: Seq<char>| #[trigger]
                        before@.insert(key@, value).contains_key(k) implies self@.contains_key(
                        k,
                    ) by {
                        if k != key@ {
                            let j = before.keys().index_of(k);
                            assert(0 <= j < before.keys().len() && before.keys()[j] == k);
                            assert(self.keys()[j] == k);
                        } else {
                            assert(self.keys()[before.keys().len() as int] == k);
                        }
                    }
                    assert(self@ =~= before@.insert(key@, value));
                }
                None
            },
        }
    }

    /// Takes out what is stored under `key`, if anything is.
    pub fn remove(&mut self, key: &String) -> (removed: Option<V>)
        requires
            old(self).wf(),
        ensures
            final(self).wf(),
            final(self)@ == old(self)@.remove(key@),
            removed == if old(self)@.contains_key(key@) {
                Some(old(self)@[key@])
            } else {
                None::<V>
            },
    {
        proof {
            self.lemma_view();
        }
        let ghost before = *self;
        match self.position(key) {
            Some(i) => {
                assert(before.keys()[i as int] == key@);
                let entry = self.entries.remove(i);
                proof {
                    assert(self.keys() =~= before.keys().remove(i as int));
                    self.lemma_view();
                    assert forall|k: Seq<char>| #[trigger]
                        self@.contains_key(k) implies before@.remove(key@).contains_key(k)
                        && self@[k] == before@.remove(key@)[k] by {
                        let j = self.keys().index_of(k);
                        assert(0 <= j < self.keys().len() && self.keys()[j] == k);
                        if j < i as int {
                            assert(before.keys()[j] == k);
                        } else {
                            assert(before.keys()[j + 1] == k);
                        }
                    }
                    assert forall|k: Seq<char>| #[trigger]
                        before@.remove(key@).contains_key(k) implies self@.contains_key(k) by {
                        let j = before.keys().index_of(k);
                        assert(0 <= j < before.keys().len() && before.keys()[j] == k);
                        if j < i as int {
                            assert(self.keys()[j] == k);
                        } else {
                            assert(self.keys()[j - 1] == k);
                        }
                    }
                    assert(self@ =~= before@.remove(key@));
                }
                Some(entry.value)
            },
            None => {
                proof {
                    assert(self@ =~= before@.remove(key@));
                }
                None
            },
        }
    }

    /// Every value of the table, each once, in the order of [`Table::keys`].
    pub fn values(&self) -> (values: Vec<&V>)
        requires
            self.wf(),
        ensures
            self@.dom().finite(),
            values@.len() == self@.len(),
            self.keys().no_duplicates(),
            self.keys().to_set() == self@.dom(),
            values@.len() == self.keys().len(),
            forall|i: int| 0 <= i < values@.len() ==> *#[trigger] values@[i] == self@[self.keys()[i]],
    {
        proof {
            self.lemma_view();
        }
        let mut values: Vec<&V> = Vec::new();
        let mut i: usize = 0;
        while i < self.entries.len()
            invariant
                i <= self.entries@.len(),
                values@.len() == i,
                forall|j: int| 0 <= j < i ==> *#[trigger] values@[j] == self.entries@[j].value,
            decreases self.entries@.len() - i,
        {
            values.push(&self.entries[i].value);
            i += 1;
        }
        values
    }
}

} // verus!
