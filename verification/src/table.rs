//! A table from string identifiers to values, in which no identifier
//! occurs twice.

use vstd::prelude::*;
use vstd::seq_lib::seq_to_set_is_finite;

verus! {

/// A mapping from identifiers to values.
#[derive(Clone, Debug)]
pub struct Table<V> {
    entries: Vec<(String, V)>,
}

impl<V: View> View for Table<V> {
    type V = Map<Seq<char>, V::V>;

    closed spec fn view(&self) -> Map<Seq<char>, V::V> {
        Map::new(
            |key: Seq<char>| self.slot(key) >= 0,
            |key: Seq<char>| self.entries@[self.slot(key)].1@,
        )
    }
}

impl<V: View> Table<V> {
    /// Whether the entry at `i` is filed under `key`.
    spec fn files(&self, i: int, key: Seq<char>) -> bool {
        0 <= i < self.entries@.len() && self.entries@[i].0@ == key
    }

    /// An index at which `key` is filed, or -1 where it is filed nowhere.
    spec fn slot(&self, key: Seq<char>) -> int {
        if exists|i: int| self.files(i, key) {
            choose|i: int| self.files(i, key)
        } else {
            -1
        }
    }

    /// No identifier is filed twice.
    pub closed spec fn wf(&self) -> bool {
        forall|i: int, j: int|
            0 <= i < j < self.entries@.len() ==> self.entries@[i].0@ != self.entries@[j].0@
    }

    /// The number of entries.
    pub closed spec fn count(&self) -> nat {
        self.entries@.len()
    }

    proof fn lemma_slot(&self, i: int)
        requires
            self.wf(),
            0 <= i < self.entries@.len(),
        ensures
            self.slot(self.entries@[i].0@) == i,
            self@.contains_key(self.entries@[i].0@),
            self@[self.entries@[i].0@] == self.entries@[i].1@,
    {
        let key = self.entries@[i].0@;
        assert(self.files(i, key));
        let c = choose|c: int| self.files(c, key);
        assert(self.files(c, key));
        if c < i {
        } else if i < c {
        }
    }

    proof fn lemma_absent(&self, key: Seq<char>)
        requires
            forall|i: int| 0 <= i < self.entries@.len() ==> self.entries@[i].0@ != key,
        ensures
            !self@.contains_key(key),
    {
        if exists|i: int| self.files(i, key) {
            let c = choose|c: int| self.files(c, key);
            assert(self.files(c, key));
        }
    }

    proof fn lemma_present(&self, key: Seq<char>)
        requires
            self@.contains_key(key),
        ensures
            self.files(self.slot(key), key),
    {
    }

    /// The table files finitely many identifiers, as many as it has entries.
    pub proof fn lemma_count(&self)
        requires
            self.wf(),
        ensures
            self@.dom().finite(),
            self@.dom().len() == self.count(),
    {
        let keys = Seq::new(self.entries@.len(), |i: int| self.entries@[i].0@);
        assert(keys.no_duplicates());
        keys.unique_seq_to_set();
        seq_to_set_is_finite(keys);
        assert forall|key: Seq<char>| keys.to_set().contains(key) <==> self@.dom().contains(key) by {
            if keys.to_set().contains(key) {
                let i = choose|i: int| 0 <= i < keys.len() && keys[i] == key;
                self.lemma_slot(i);
            }
            if self@.dom().contains(key) {
                self.lemma_present(key);
                assert(keys[self.slot(key)] == key);
            }
        }
        assert(keys.to_set() =~= self@.dom());
    }

    /// An empty table.
    pub fn new() -> (table: Self)
        ensures
            table.wf(),
            table@ == Map::<Seq<char>, V::V>::empty(),
            table.count() == 0,
    {
        let table = Table { entries: Vec::new() };
        assert(table@ =~= Map::<Seq<char>, V::V>::empty());
        table
    }

    /// The number of entries.
    pub fn len(&self) -> (n: usize)
        ensures
            n == self.count(),
    {
        self.entries.len()
    }

    /// The identifiers under which something is filed, each once.
    pub fn keys(&self) -> (keys: Vec<String>)
        requires
            self.wf(),
        ensures
            keys@.len() == self.count(),
            forall|i: int| 0 <= i < keys@.len() ==> self@.contains_key(#[trigger] keys@[i]@),
            forall|i: int, j: int| 0 <= i < j < keys@.len() ==> keys@[i]@ != keys@[j]@,
            forall|key: Seq<char>|
                self@.contains_key(key) ==> exists|i: int|
                    0 <= i < keys@.len() && #[trigger] keys@[i]@ == key,
    {
        let mut keys: Vec<String> = Vec::new();
        let mut i: usize = 0;
        while i < self.entries.len()
            invariant
                self.wf(),
                i <= self.entries.len(),
                keys@.len() == i,
                forall|j: int| 0 <= j < i ==> (#[trigger] keys@[j])@ == self.entries@[j].0@,
            decreases self.entries.len() - i,
        {
            keys.push(self.entries[i].0.clone());
            i = i + 1;
        }
        proof {
            assert forall|j: int| 0 <= j < keys@.len() implies self@.contains_key(
                #[trigger] keys@[j]@,
            ) by {
                self.lemma_slot(j);
            }
            assert forall|key: Seq<char>| self@.contains_key(key) implies exists|j: int|
                0 <= j < keys@.len() && #[trigger] keys@[j]@ == key by {
                self.lemma_present(key);
                let s = self.slot(key);
                assert(keys@[s]@ == key);
            }
        }
        keys
    }

    fn position(&self, key: &String) -> (found: Option<usize>)
        requires
            self.wf(),
        ensures
            match found {
                Some(i) => self.files(i as int, key@) && self@.contains_key(key@) && self@[key@]
                    == self.entries@[i as int].1@,
                None => !self@.contains_key(key@) && forall|i: int|
                    0 <= i < self.entries@.len() ==> self.entries@[i].0@ != key@,
            },
    {
        let mut i: usize = 0;
        while i < self.entries.len()
            invariant
                self.wf(),
                i <= self.entries.len(),
                forall|j: int| 0 <= j < i ==> self.entries@[j].0@ != key@,
            decreases self.entries.len() - i,
        {
            if self.entries[i].0 == *key {
                proof {
                    self.lemma_slot(i as int);
                }
                return Some(i);
            }
            i = i + 1;
        }
        proof {
            self.lemma_absent(key@);
        }
        None
    }

    /// Whether an entry is filed under `key`.
    pub fn contains_key(&self, key: &String) -> (found: bool)
        requires
            self.wf(),
        ensures
            found == self@.contains_key(key@),
    {
        self.position(key).is_some()
    }

    /// The value filed under `key`.
    pub fn get(&self, key: &String) -> (value: Option<&V>)
        requires
            self.wf(),
        ensures
            match value {
                Some(v) => self@.contains_key(key@) && v@ == self@[key@],
                None => !self@.contains_key(key@),
            },
    {
        match self.position(key) {
            Some(i) => Some(&self.entries[i].1),
            None => None,
        }
    }

    /// Files `value` under `key`, in place of any value filed there before.
    pub fn insert(&mut self, key: String, value: V)
        requires
            old(self).wf(),
        ensures
            final(self).wf(),
            final(self)@ == old(self)@.insert(key@, value@),
            final(self).count() == old(self).count() + if old(self)@.contains_key(key@) {
                0nat
            } else {
                1nat
            },
    {
        let ghost before = *self;
        let ghost new_value = value@;
        let ghost at: int;
        match self.position(&key) {
            Some(i) => {
                self.entries.set(i, (key, value));
                proof {
                    at = i as int;
                }
            },
            None => {
                self.entries.push((key, value));
                proof {
                    at = self.entries@.len() - 1;
                }
            },
        }
        proof {
            assert(self.files(at, key@));
            assert(self.wf());
            let after = *self;
            assert forall|k: Seq<char>| after@.contains_key(k) <==> before@.insert(
                key@,
                new_value,
            ).contains_key(k) by {
                if after@.contains_key(k) {
                    after.lemma_present(k);
                    let s = after.slot(k);
                    if k != key@ {
                        assert(before.files(s, k));
                    }
                }
                if before@.contains_key(k) {
                    before.lemma_present(k);
                    let s = before.slot(k);
                    assert(after.files(s, k));
                }
                if k == key@ {
                    assert(after.files(at, k));
                }
            }
            assert forall|k: Seq<char>| after@.contains_key(k) implies #[trigger] after@[k]
                == before@.insert(key@, new_value)[k] by {
                after.lemma_present(k);
                let s = after.slot(k);
                after.lemma_slot(s);
                if k != key@ {
                    assert(before.files(s, k));
                    before.lemma_slot(s);
                }
            }
            assert(after@ =~= before@.insert(key@, new_value));
        }
    }

    /// Takes out the value filed under `key`, where there is one.
    pub fn remove(&mut self, key: &String) -> (value: Option<V>)
        requires
            old(self).wf(),
        ensures
            final(self).wf(),
            final(self)@ == old(self)@.remove(key@),
            match value {
                Some(v) => old(self)@.contains_key(key@) && v@ == old(self)@[key@]
                    && final(self).count() + 1 == old(self).count(),
                None => !old(self)@.contains_key(key@) && final(self).count() == old(self).count(),
            },
    {
        let ghost before = *self;
        match self.position(key) {
            Some(i) => {
                let entry = self.entries.remove(i);
                proof {
                    let after = *self;
                    assert(after.wf());
                    assert forall|j: int| 0 <= j < after.entries@.len() implies after.entries@[j].0@
                        != key@ by {
                        if j < i {
                            assert(after.entries@[j] == before.entries@[j]);
                        } else {
                            assert(after.entries@[j] == before.entries@[j + 1]);
                        }
                    }
                    after.lemma_absent(key@);
                    assert forall|k: Seq<char>| after@.contains_key(k) <==> before@.remove(
                        key@,
                    ).contains_key(k) by {
                        if after@.contains_key(k) {
                            after.lemma_present(k);
                            let s = after.slot(k);
                            if s < i {
                                assert(before.files(s, k));
                            } else {
                                assert(before.files(s + 1, k));
                            }
                        }
                        if before@.contains_key(k) && k != key@ {
                            before.lemma_present(k);
                            let s = before.slot(k);
                            if s < i {
                                assert(after.files(s, k));
                            } else {
                                assert(after.files(s - 1, k));
                            }
                        }
                    }
                    assert forall|k: Seq<char>| after@.contains_key(k) implies #[trigger] after@[k]
                        == before@.remove(key@)[k] by {
                        after.lemma_present(k);
                        let s = after.slot(k);
                        after.lemma_slot(s);
                        if s < i {
                            assert(before.files(s, k));
                            before.lemma_slot(s);
                        } else {
                            assert(before.files(s + 1, k));
                            before.lemma_slot(s + 1);
                        }
                    }
                    assert(after@ =~= before@.remove(key@));
                }
                Some(entry.1)
            },
            None => {
                assert(self@ =~= before@.remove(key@));
                None
            },
        }
    }
}

} // verus!
