use vstd::prelude::*;

use crate::value::{Value, ValueView};

verus! {

/// A mapping from configuration keys to values; each key occurs once.
pub struct ConfigMap {
    entries: Vec<(String, Value)>,
}

impl ConfigMap {
    /// The keys are pairwise distinct.
    pub closed spec fn wf(&self) -> bool {
        forall|i: int, j: int|
            0 <= i < j < self.entries@.len() ==> #[trigger] self.entries@[i].0@
                != #[trigger] self.entries@[j].0@
    }

    spec fn has_key_at(&self, k: Seq<char>, i: int) -> bool {
        0 <= i < self.entries@.len() && self.entries@[i].0@ == k
    }

    pub closed spec fn view(&self) -> Map<Seq<char>, ValueView> {
        Map::new(
            |k: Seq<char>| exists|i: int| self.has_key_at(k, i),
            |k: Seq<char>| self.entries@[choose|i: int| self.has_key_at(k, i)].1@,
        )
    }

    proof fn lemma_at(&self, i: int)
        requires
            self.wf(),
            0 <= i < self.entries@.len(),
        ensures
            self@.contains_key(self.entries@[i].0@),
            self@[self.entries@[i].0@] == self.entries@[i].1@,
    {
        let k = self.entries@[i].0@;
        assert(self.has_key_at(k, i));
        let j = choose|j: int| self.has_key_at(k, j);
        assert(i == j) by {
            if i < j {
                assert(self.entries@[i].0@ != self.entries@[j].0@);
            } else if j < i {
                assert(self.entries@[j].0@ != self.entries@[i].0@);
            }
        }
    }

    pub fn new() -> (r: ConfigMap)
        ensures
            r.wf(),
            r@ == Map::<Seq<char>, ValueView>::empty(),
    {
        let r = ConfigMap { entries: Vec::new() };
        assert(r@ =~= Map::<Seq<char>, ValueView>::empty());
        r
    }

    pub fn len(&self) -> (n: usize)
        requires
            self.wf(),
        ensures
            n == self@.len(),
    {
        proof {
            self.lemma_len();
        }
        self.entries.len()
    }

    proof fn lemma_len(&self)
        requires
            self.wf(),
        ensures
            self@.len() == self.entries@.len(),
    {
        let keys = self.entries@.map_values(|e: (String, Value)| e.0@);
        assert forall|i: int, j: int| 0 <= i < j < keys.len() implies keys[i] != keys[j] by {
            assert(keys[i] == self.entries@[i].0@);
            assert(keys[j] == self.entries@[j].0@);
        }
        assert(keys.no_duplicates());
        keys.unique_seq_to_set();
        assert(self@.dom() =~= keys.to_set()) by {
            assert forall|k: Seq<char>| self@.dom().contains(k) implies keys.to_set().contains(
                k,
            ) by {
                let i = choose|i: int| self.has_key_at(k, i);
                assert(keys[i] == k);
            }
            assert forall|k: Seq<char>| keys.to_set().contains(k) implies self@.dom().contains(
                k,
            ) by {
                let i = choose|i: int| 0 <= i < keys.len() && keys[i] == k;
                assert(self.has_key_at(k, i));
            }
        }
    }

    /// Where `key` stands among the entries, if it does.
    fn position(&self, key: &String) -> (r: Option<usize>)
        requires
            self.wf(),
        ensures
            match r {
                Some(i) => self.has_key_at(key@, i as int),
                None => !self@.contains_key(key@),
            },
    {
        let mut i: usize = 0;
        while i < self.entries.len()
            invariant
                i <= self.entries@.len(),
                forall|j: int| 0 <= j < i ==> !#[trigger] self.has_key_at(key@, j),
            decreases self.entries@.len() - i,
        {
            if self.entries[i].0 == *key {
                return Some(i);
            }
            i = i + 1;
        }
        None
    }

    /// Sets `key` to `value`, replacing the value that it had.
    pub fn insert(&mut self, key: String, value: Value)
        requires
            old(self).wf(),
        ensures
            final(self).wf(),
            final(self)@ == old(self)@.insert(key@, value@),
    {
        let ghost k = key@;
        let ghost v = value@;
        match self.position(&key) {
            Some(i) => {
                self.entries.set(i, (key, value));
                proof {
                    self.lemma_insert_at(*old(self), i as int, k, v);
                }
            },
            None => {
                self.entries.push((key, value));
                proof {
                    self.lemma_insert_at(*old(self), old(self).entries@.len() as int, k, v);
                }
            },
        }
    }

    proof fn lemma_insert_at(&self, prev: ConfigMap, i: int, k: Seq<char>, v: ValueView)
        requires
            prev.wf(),
            0 <= i <= prev.entries@.len(),
            i < prev.entries@.len() ==> prev.entries@[i].0@ == k,
            i == prev.entries@.len() ==> !prev@.contains_key(k),
            self.entries@.len() == if i < prev.entries@.len() {
                prev.entries@.len()
            } else {
                prev.entries@.len() + 1
            },
            forall|j: int|
                0 <= j < self.entries@.len() && j != i ==> self.entries@[j]
                    == #[trigger] prev.entries@[j],
            self.entries@[i].0@ == k,
            self.entries@[i].1@ == v,
        ensures
            self.wf(),
            self@ == prev@.insert(k, v),
    {
        let n = prev.entries@.len();
        assert forall|a: int, b: int|
            0 <= a < b < self.entries@.len() implies #[trigger] self.entries@[a].0@
            != #[trigger] self.entries@[b].0@ by {
            if a != i && b != i {
                assert(prev.entries@[a].0@ != prev.entries@[b].0@);
            } else if i == n {
                assert(prev.has_key_at(self.entries@[a].0@, a));
            } else if a == i {
                assert(prev.entries@[a].0@ != prev.entries@[b].0@);
            } else {
                assert(prev.entries@[a].0@ != prev.entries@[b].0@);
            }
        }
        self.lemma_at(i);
        assert forall|key: Seq<char>| #[trigger] self@.contains_key(key) == prev@.insert(
            k,
            v,
        ).contains_key(key) by {
            if key != k {
                if self@.contains_key(key) {
                    let j = choose|j: int| self.has_key_at(key, j);
                    assert(prev.has_key_at(key, j));
                }
                if prev@.contains_key(key) {
                    let j = choose|j: int| prev.has_key_at(key, j);
                    assert(self.has_key_at(key, j));
                }
            }
        }
        assert forall|key: Seq<char>| #[trigger] self@.contains_key(key) implies self@[key]
            == prev@.insert(k, v)[key] by {
            if key != k {
                let j = choose|j: int| self.has_key_at(key, j);
                assert(prev.has_key_at(key, j));
                self.lemma_at(j);
                prev.lemma_at(j);
            }
        }
        assert(self@ =~= prev@.insert(k, v));
    }

    /// The value of `key`, if it has one.
    pub fn get(&self, key: &str) -> (r: Option<&Value>)
        requires
            self.wf(),
        ensures
            match r {
                Some(v) => self@.contains_key(key@) && self@[key@] == v@,
                None => !self@.contains_key(key@),
            },
    {
        let key = String::from_str(key);
        match self.position(&key) {
            Some(i) => {
                proof {
                    self.lemma_at(i as int);
                }
                Some(&self.entries[i].1)
            },
            None => None,
        }
    }

    pub fn contains_key(&self, key: &str) -> (r: bool)
        requires
            self.wf(),
        ensures
            r == self@.contains_key(key@),
    {
        self.get(key).is_some()
    }

    /// The entries, each key once, in no particular order.
    pub fn into_entries(self) -> (r: Vec<(String, Value)>)
        requires
            self.wf(),
        ensures
            forall|i: int, j: int|
                0 <= i < j < r@.len() ==> #[trigger] r@[i].0@ != #[trigger] r@[j].0@,
            forall|i: int|
                0 <= i < r@.len() ==> self@.contains_key(#[trigger] r@[i].0@) && self@[r@[i].0@]
                    == r@[i].1@,
            r@.len() == self@.len(),
    {
        proof {
            self.lemma_len();
            assert forall|i: int| 0 <= i < self.entries@.len() implies self@.contains_key(
                #[trigger] self.entries@[i].0@,
            ) && self@[self.entries@[i].0@] == self.entries@[i].1@ by {
                self.lemma_at(i);
            }
        }
        self.entries
    }
}

} // verus!
