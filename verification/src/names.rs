//! A small map keyed by name that remembers the order of insertion.

use vstd::prelude::*;

verus! {

/// A finite map from names to values, kept in insertion order.
///
/// The abstract value (`@`) is a `Map` from the characters of a name to the
/// value stored under it. `names()` lists the keys in insertion order, so a
/// caller can walk the map deterministically.
#[derive(Debug)]
pub struct NameMap<V> {
    entries: Vec<(String, V)>,
}

/// The keys of a list of entries, in order.
spec fn key_seq<V>(entries: Seq<(String, V)>) -> Seq<Seq<char>> {
    Seq::new(entries.len(), |i: int| entries[i].0@)
}

impl<V> View for NameMap<V> {
    type V = Map<Seq<char>, V>;

    closed spec fn view(&self) -> Map<Seq<char>, V> {
        Map::new(
            |k: Seq<char>| self.names().contains(k),
            |k: Seq<char>| self.entries@[self.names().index_of(k)].1,
        )
    }
}

impl<V> NameMap<V> {
    /// The keys, oldest first.
    pub closed spec fn names(&self) -> Seq<Seq<char>> {
        key_seq(self.entries@)
    }

    #[verifier::type_invariant]
    closed spec fn distinct_names(&self) -> bool {
        self.names().no_duplicates()
    }

    /// The keys of the abstract map are exactly the listed names.
    pub proof fn lemma_names_are_keys(&self)
        ensures
            forall|k: Seq<char>| self@.contains_key(k) <==> self.names().contains(k),
            self@.dom().finite(),
    {
        assert(self@.dom() =~= self.names().to_set());
        vstd::seq_lib::seq_to_set_is_finite(self.names());
    }

    /// Where no name occurs twice, the value at position `i` is the value
    /// stored under the `i`-th name.
    proof fn lemma_position(&self, i: int)
        requires
            self.distinct_names(),
            0 <= i < self.names().len(),
        ensures
            self@.contains_key(self.names()[i]),
            self@[self.names()[i]] == self.entries@[i].1,
    {
        let names = self.names();
        let k = names[i];
        assert(names.contains(k));
        let j = names.index_of(k);
        assert(0 <= j < names.len() && names[j] == k);
        assert(j == i);
    }

    /// The empty map.
    pub fn new() -> (m: Self)
        ensures
            m@ == Map::<Seq<char>, V>::empty(),
            m.names() == Seq::<Seq<char>>::empty(),
    {
        let m = NameMap { entries: Vec::new() };
        assert(m.names() =~= Seq::<Seq<char>>::empty());
        assert(m@ =~= Map::<Seq<char>, V>::empty());
        m
    }

    /// Number of names in the map. No name is listed twice.
    pub fn len(&self) -> (n: usize)
        ensures
            n == self.names().len(),
            self.names().no_duplicates(),
    {
        proof {
            use_type_invariant(self);
        }
        self.entries.len()
    }

    /// The name at position `i` in insertion order.
    pub fn name_at(&self, i: usize) -> (name: &String)
        requires
            i < self.names().len(),
        ensures
            name@ == self.names()[i as int],
            self@.contains_key(name@),
    {
        proof {
            use_type_invariant(self);
            self.lemma_position(i as int);
        }
        &self.entries[i].0
    }

    /// The value stored under the name at position `i`.
    pub fn value_at(&self, i: usize) -> (value: &V)
        requires
            i < self.names().len(),
        ensures
            self@.contains_key(self.names()[i as int]),
            *value == self@[self.names()[i as int]],
    {
        proof {
            use_type_invariant(self);
            self.lemma_position(i as int);
        }
        &self.entries[i].1
    }

    /// Position of `name` among the entries, if it is present.
    fn position(&self, name: &String) -> (at: Option<usize>)
        ensures
            match at {
                Some(i) => i < self.names().len() && self.names()[i as int] == name@,
                None => !self.names().contains(name@),
            },
    {
        let mut i: usize = 0;
        while i < self.entries.len()
            invariant
                i <= self.entries@.len(),
                self.names().len() == self.entries@.len(),
                forall|j: int| 0 <= j < i ==> self.names()[j] != name@,
            decreases self.entries@.len() - i,
        {
            if self.entries[i].0 == *name {
                return Some(i);
            }
            i += 1;
        }
        None
    }

    /// Looks `name` up.
    pub fn get(&self, name: &String) -> (value: Option<&V>)
        ensures
            match value {
                Some(v) => self@.contains_key(name@) && *v == self@[name@],
                None => !self@.contains_key(name@),
            },
    {
        proof {
            use_type_invariant(self);
            self.lemma_names_are_keys();
        }
        match self.position(name) {
            Some(i) => {
                proof {
                    self.lemma_position(i as int);
                }
                Some(&self.entries[i].1)
            },
            None => None,
        }
    }

    /// Whether `name` is a key of the map.
    pub fn contains(&self, name: &String) -> (found: bool)
        ensures
            found == self@.contains_key(name@),
    {
        self.get(name).is_some()
    }

    /// Stores `value` under `name`. A name that is already present keeps
    /// its position and has its value replaced; a new name goes last.
    pub fn insert(&mut self, name: String, value: V)
        ensures
            final(self)@ == old(self)@.insert(name@, value),
            final(self).names() == if old(self)@.contains_key(name@) {
                old(self).names()
            } else {
                old(self).names().push(name@)
            },
    {
        proof {
            use_type_invariant(&*self);
            self.lemma_names_are_keys();
        }
        let ghost before = *self;
        let ghost key = name@;
        let found = self.position(&name);
        let mut entries: Vec<(String, V)> = Vec::new();
        std::mem::swap(&mut self.entries, &mut entries);
        match found {
            Some(i) => {
                entries[i] = (name, value);
                assert(key_seq(entries@) =~= before.names());
            },
            None => {
                entries.push((name, value));
                proof {
                    let now = key_seq(entries@);
                    let n = before.names().len() as int;
                    assert(now =~= before.names().push(key));
                    assert forall|a: int, b: int|
                        0 <= a < now.len() && 0 <= b < now.len() && a != b implies now[a]
                        != now[b] by {
                        if a < n && b < n {
                            assert(before.names()[a] != before.names()[b]);
                        } else if a < n {
                            assert(before.names().contains(before.names()[a]));
                        } else {
                            assert(before.names().contains(before.names()[b]));
                        }
                    }
                }
            },
        }
        std::mem::swap(&mut self.entries, &mut entries);
        proof {
            let n = before.names().len() as int;
            assert forall|k: Seq<char>| self.names().contains(k) <==> (k == key
                || before.names().contains(k)) by {
                if before.names().contains(k) {
                    let j = before.names().index_of(k);
                    assert(self.names()[j] == k);
                }
                if k == key {
                    match found {
                        Some(i) => {
                            assert(self.names()[i as int] == k);
                        },
                        None => {
                            assert(self.names()[n] == k);
                        },
                    }
                }
            }
            assert forall|k: Seq<char>| self@.contains_key(k) implies #[trigger] self@[k]
                == before@.insert(key, value)[k] by {
                let j = self.names().index_of(k);
                assert(0 <= j < self.names().len() && self.names()[j] == k);
                if k != key {
                    assert(j < n);
                    assert(before.names()[j] == k);
                    assert(before.names().contains(k));
                    let j2 = before.names().index_of(k);
                    assert(0 <= j2 < n && before.names()[j2] == k);
                    assert(self.names()[j2] == k);
                    assert(j2 == j);
                }
            }
            assert(self@ =~= before@.insert(key, value));
        }
    }
}

impl<V: Copy> NameMap<V> {
    /// An independent copy with the same names, in the same order, and the
    /// same values.
    pub fn duplicate(&self) -> (copy: Self)
        ensures
            copy@ == self@,
            copy.names() == self.names(),
    {
        proof {
            use_type_invariant(self);
        }
        let mut entries: Vec<(String, V)> = Vec::new();
        let mut i: usize = 0;
        while i < self.entries.len()
            invariant
                i <= self.entries@.len(),
                entries@ == self.entries@.take(i as int),
            decreases self.entries@.len() - i,
        {
            let name = self.entries[i].0.clone();
            entries.push((name, self.entries[i].1));
            assert(entries@ =~= self.entries@.take(i + 1));
            i += 1;
        }
        assert(entries@ =~= self.entries@);
        NameMap { entries }
    }
}

} // verus!
