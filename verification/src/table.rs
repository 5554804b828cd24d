//! A map from text keys to values.

use crate::text;
use vstd::prelude::*;
use vstd::string::*;

verus! {

/// A map from text keys to values, kept in the order in which keys were added.
pub struct Table<V> {
    keys: Vec<String>,
    vals: Vec<V>,
}

impl<V> View for Table<V> {
    type V = Map<Seq<char>, V>;

    closed spec fn view(&self) -> Map<Seq<char>, V> {
        Map::new(
            |k: Seq<char>| self.key_seq().contains(k),
            |k: Seq<char>| self.vals@[self.key_seq().index_of(k)],
        )
    }
}

impl<V> Table<V> {
    /// The keys in order.
    pub closed spec fn key_seq(self) -> Seq<Seq<char>> {
        self.keys@.map_values(|k: String| k@)
    }

    /// Keys are distinct and each has one value.
    pub closed spec fn wf(self) -> bool {
        &&& self.keys@.len() == self.vals@.len()
        &&& self.key_seq().no_duplicates()
    }

    /// The keys in order are the keys of the map, each once.
    pub proof fn lemma_keys(self)
        requires
            self.wf(),
        ensures
            self.key_seq().no_duplicates(),
            forall|k: Seq<char>| #[trigger]
                self@.contains_key(k) <==> self.key_seq().contains(k),
            forall|i: int| 0 <= i < self.key_seq().len() ==> self@.contains_key(#[trigger] self.key_seq()[i]),
    {
        assert forall|i: int| 0 <= i < self.key_seq().len() implies self@.contains_key(
            #[trigger] self.key_seq()[i],
        ) by {
            assert(self.key_seq().contains(self.key_seq()[i]));
        }
    }

    proof fn lemma_at(self, i: int)
        requires
            self.wf(),
            0 <= i < self.keys@.len(),
        ensures
            self@.contains_key(self.keys@[i]@),
            self@[self.keys@[i]@] == self.vals@[i],
    {
        let k = self.key_seq()[i];
        assert(self.key_seq().contains(k));
        let j = self.key_seq().index_of(k);
        assert(0 <= j < self.key_seq().len() && self.key_seq()[j] == k);
    }

    /// The empty table.
    pub fn new() -> (t: Self)
        ensures
            t.wf(),
            t@ == Map::<Seq<char>, V>::empty(),
            t.key_seq() == Seq::<Seq<char>>::empty(),
    {
        let t: Table<V> = Table { keys: Vec::new(), vals: Vec::new() };
        assert(t.key_seq() == Seq::<Seq<char>>::empty());
        assert(t@ =~= Map::<Seq<char>, V>::empty());
        t
    }

    /// How many keys there are.
    pub fn len(&self) -> (n: usize)
        requires
            self.wf(),
        ensures
            n == self.key_seq().len(),
    {
        self.keys.len()
    }

    /// The key at a position.
    pub fn key_at(&self, i: usize) -> (k: &String)
        requires
            self.wf(),
            i < self.key_seq().len(),
        ensures
            k@ == self.key_seq()[i as int],
    {
        &self.keys[i]
    }

    /// The value at a position.
    pub fn value_at(&self, i: usize) -> (v: &V)
        requires
            self.wf(),
            i < self.key_seq().len(),
        ensures
            self@.contains_key(self.key_seq()[i as int]),
            *v == self@[self.key_seq()[i as int]],
    {
        proof {
            self.lemma_at(i as int);
        }
        &self.vals[i]
    }

    fn position(&self, key: &str) -> (r: Option<usize>)
        requires
            self.wf(),
        ensures
            match r {
                Some(i) => i < self.keys@.len() && self.keys@[i as int]@ == key@,
                None => !self@.contains_key(key@),
            },
    {
        let mut i: usize = 0;
        while i < self.keys.len()
            invariant
                i <= self.keys@.len(),
                forall|j: int| 0 <= j < i ==> self.key_seq()[j] != key@,
            decreases self.keys.len() - i,
        {
            if text::same(self.keys[i].as_str(), key) {
                return Some(i);
            }
            i += 1;
        }
        None
    }

    /// The value of `key`, if it has one.
    pub fn get(&self, key: &str) -> (r: Option<&V>)
        requires
            self.wf(),
        ensures
            match r {
                Some(v) => self@.contains_key(key@) && *v == self@[key@],
                None => !self@.contains_key(key@),
            },
    {
        match self.position(key) {
            Some(i) => {
                proof {
                    self.lemma_at(i as int);
                }
                Some(&self.vals[i])
            },
            None => None,
        }
    }

    /// Whether `key` has a value.
    pub fn contains(&self, key: &str) -> (r: bool)
        requires
            self.wf(),
        ensures
            r == self@.contains_key(key@),
    {
        self.get(key).is_some()
    }

    /// Gives `key` the value `value`.
    pub fn insert(&mut self, key: &str, value: V)
        requires
            old(self).wf(),
        ensures
            final(self).wf(),
            final(self)@ == old(self)@.insert(key@, value),
    {
        match self.position(key) {
            Some(i) => {
                self.vals.set(i, value);
                proof {
                    assert(self.key_seq() == old(self).key_seq());
                    assert forall|k: Seq<char>| #[trigger] self.key_seq().contains(k) implies self@[k]
                        == old(self)@.insert(key@, value)[k] by {
                        let j = self.key_seq().index_of(k);
                        assert(0 <= j < self.key_seq().len() && self.key_seq()[j] == k);
                        assert(self.key_seq()[i as int] == key@);
                    }
                    assert(self.key_seq()[i as int] == key@);
                    assert(self@ =~= old(self)@.insert(key@, value));
                }
            },
            None => {
                let ghost n = self.keys@.len() as int;
                self.keys.push(key.to_owned());
                self.vals.push(value);
                proof {
                    assert(self.key_seq() == old(self).key_seq().push(key@));
                    assert forall|i: int, j: int| 0 <= i < n + 1 && 0 <= j < n + 1 && i != j implies self.key_seq()[i]
                        != self.key_seq()[j] by {
                        if i == n {
                            assert(old(self).key_seq().contains(old(self).key_seq()[j]));
                        } else if j == n {
                            assert(old(self).key_seq().contains(old(self).key_seq()[i]));
                        }
                    }
                    assert(self.key_seq().no_duplicates());
                    assert forall|k: Seq<char>| self.key_seq().contains(k) == old(self)@.insert(
                        key@,
                        value,
                    ).contains_key(k) by {
                        if old(self).key_seq().contains(k) {
                            let j = old(self).key_seq().index_of(k);
                            assert(self.key_seq()[j] == k);
                        }
                        if k == key@ {
                            assert(self.key_seq()[n] == k);
                        }
                    }
                    assert forall|k: Seq<char>| #[trigger] self.key_seq().contains(k) implies self@[k]
                        == old(self)@.insert(key@, value)[k] by {
                        let j = self.key_seq().index_of(k);
                        assert(0 <= j < self.key_seq().len() && self.key_seq()[j] == k);
                        if j < n {
                            old(self).lemma_at(j);
                            assert(self.vals@[j] == old(self).vals@[j]);
                        }
                    }
                    assert(self@ =~= old(self)@.insert(key@, value));
                }
            },
        }
    }

    /// Takes `key` out, and returns the value that it had.
    pub fn remove(&mut self, key: &str) -> (r: Option<V>)
        requires
            old(self).wf(),
        ensures
            final(self).wf(),
            final(self)@ == old(self)@.remove(key@),
            match r {
                Some(v) => old(self)@.contains_key(key@) && v == old(self)@[key@],
                None => !old(self)@.contains_key(key@),
            },
    {
        match self.position(key) {
            Some(i) => {
                proof {
                    self.lemma_at(i as int);
                }
                self.keys.remove(i);
                let v: V = self.vals.remove(i);
                proof {
                    let before = old(self).key_seq();
                    let after = self.key_seq();
                    assert(before[i as int] == key@);
                    assert(after == before.remove(i as int));
                    assert forall|a: int, b: int| 0 <= a < after.len() && 0 <= b < after.len() && a
                        != b implies after[a] != after[b] by {
                        let x = if a < i { a } else { a + 1 };
                        let y = if b < i { b } else { b + 1 };
                        assert(before[x] == after[a] && before[y] == after[b]);
                    }
                    assert(after.no_duplicates());
                    assert forall|k: Seq<char>| after.contains(k) == old(self)@.remove(
                        key@,
                    ).contains_key(k) by {
                        if after.contains(k) {
                            let a = after.index_of(k);
                            let x = if a < i { a } else { a + 1 };
                            assert(before[x] == k);
                        }
                        if before.contains(k) && k != key@ {
                            let x = before.index_of(k);
                            assert(before[x] == k);
                            let a = if x < i { x } else { x - 1 };
                            assert(after[a] == k);
                        }
                    }
                    assert forall|k: Seq<char>| #[trigger] after.contains(k) implies self@[k]
                        == old(self)@[k] by {
                        let a = after.index_of(k);
                        assert(0 <= a < after.len() && after[a] == k);
                        let x = if a < i { a } else { a + 1 };
                        assert(before[x] == k);
                        old(self).lemma_at(x);
                        assert(self.vals@[a] == old(self).vals@[x]);
                    }
                    assert(self@ =~= old(self)@.remove(key@));
                }
                Some(v)
            },
            None => {
                assert(self@.remove(key@) =~= self@);
                None
            },
        }
    }
}

} // verus!
