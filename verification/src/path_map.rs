//! An insertion-ordered map keyed by path, in which no path occurs twice.

use vstd::prelude::*;
use crate::text::{str_eq, texts_of};

verus! {

/// A map from paths to values of type `V`.
///
/// The entries are kept in the order in which their paths were first inserted.
pub struct PathMap<V> {
    paths: Vec<String>,
    values: Vec<V>,
}

impl<V> View for PathMap<V> {
    type V = Map<Seq<char>, V>;

    open spec fn view(&self) -> Map<Seq<char>, V> {
        Map::new(
            |p: Seq<char>| self.keys().contains(p),
            |p: Seq<char>| self.values()[self.keys().index_of(p)],
        )
    }
}

impl<V> PathMap<V> {
    /// The paths of the map, in insertion order.
    pub closed spec fn keys(&self) -> Seq<Seq<char>> {
        Seq::new(self.paths.len() as nat, |i: int| self.paths[i]@)
    }

    /// The values of the map, each at the index of its path in `keys`.
    pub closed spec fn values(&self) -> Seq<V> {
        self.values@
    }

    /// Every path has one value and occurs once.
    #[verifier::type_invariant]
    pub open spec fn wf(&self) -> bool {
        &&& self.keys().len() == self.values().len()
        &&& self.keys().no_duplicates()
    }

    /// In a well-formed map the view holds exactly the listed paths, each with
    /// the value at its index.
    pub proof fn lemma_view(&self)
        requires
            self.wf(),
        ensures
            self@.dom() == self.keys().to_set(),
            self@.dom().finite(),
            self@.dom().len() == self.keys().len(),
            forall|i: int|
                0 <= i < self.keys().len() ==> self@.contains_key(#[trigger] self.keys()[i])
                    && self@[self.keys()[i]] == self.values()[i],
            forall|p: Seq<char>|
                self@.contains_key(p) <==> self.keys().contains(p),
    {
        let keys = self.keys();
        assert(self@.dom() =~= keys.to_set());
        vstd::seq_lib::seq_to_set_is_finite(keys);
        keys.unique_seq_to_set();
        assert forall|i: int| 0 <= i < keys.len() implies self@.contains_key(
            #[trigger] keys[i],
        ) && self@[keys[i]] == self.values()[i] by {
            let j = keys.index_of(keys[i]);
            assert(keys[j] == keys[i]);
        }
    }

    /// The empty map.
    pub fn new() -> (map: Self)
        ensures
            map.wf(),
            map@ == Map::<Seq<char>, V>::empty(),
            map.keys() == Seq::<Seq<char>>::empty(),
    {
        let map = PathMap { paths: Vec::new(), values: Vec::new() };
        assert(map.keys() =~= Seq::<Seq<char>>::empty());
        assert(map@ =~= Map::<Seq<char>, V>::empty());
        map
    }

    /// The number of entries.
    pub fn len(&self) -> (n: usize)
        ensures
            self.wf(),
            n == self.keys().len(),
            n == self@.dom().len(),
    {
        proof {
            use_type_invariant(self);
            self.lemma_view();
        }
        self.paths.len()
    }

    /// The path of the entry at `i`.
    pub fn key(&self, i: usize) -> (path: &String)
        requires
            i < self.keys().len(),
        ensures
            self.wf(),
            path@ == self.keys()[i as int],
    {
        proof {
            use_type_invariant(self);
        }
        &self.paths[i]
    }

    /// The value of the entry at `i`.
    pub fn value(&self, i: usize) -> (value: &V)
        requires
            i < self.keys().len(),
        ensures
            self.wf(),
            *value == self.values()[i as int],
            self@.contains_key(self.keys()[i as int]),
            *value == self@[self.keys()[i as int]],
    {
        proof {
            use_type_invariant(self);
            self.lemma_view();
        }
        &self.values[i]
    }

    /// The index of `path` among the keys, if it is one of them.
    pub fn position(&self, path: &str) -> (found: Option<usize>)
        ensures
            self.wf(),
            match found {
                Some(i) => i < self.keys().len() && self.keys()[i as int] == path@,
                None => !self.keys().contains(path@),
            },
            found is Some <==> self@.contains_key(path@),
    {
        proof {
            use_type_invariant(self);
        }
        let mut i: usize = 0;
        while i < self.paths.len()
            invariant
                self.wf(),
                i <= self.paths.len(),
                self.keys().len() == self.paths.len(),
                forall|j: int| 0 <= j < i ==> self.keys()[j] != path@,
            decreases self.paths.len() - i,
        {
            if str_eq(self.paths[i].as_str(), path) {
                assert(self.keys()[i as int] == path@);
                return Some(i);
            }
            i += 1;
        }
        None
    }

    /// The value stored under `path`, if there is one.
    pub fn get(&self, path: &str) -> (found: Option<&V>)
        ensures
            self.wf(),
            match found {
                Some(v) => self@.contains_key(path@) && *v == self@[path@],
                None => !self@.contains_key(path@),
            },
    {
        match self.position(path) {
            Some(i) => {
                proof {
                    self.lemma_view();
                }
                Some(&self.values[i])
            },
            None => None,
        }
    }

    /// Stores `value` under `path`. An entry that `path` already had keeps its
    /// place and gets the new value; a new path goes to the end.
    pub fn insert(&mut self, path: String, value: V)
        ensures
            final(self).wf(),
            final(self)@ == old(self)@.insert(path@, value),
            old(self)@.contains_key(path@) ==> final(self).keys() == old(self).keys(),
            !old(self)@.contains_key(path@) ==> final(self).keys() == old(self).keys().push(path@),
    {
        proof {
            use_type_invariant(&*self);
            self.lemma_view();
        }
        let ghost before = *self;
        match self.position(path.as_str()) {
            Some(i) => {
                let mut taken = PathMap::new();
                core::mem::swap(self, &mut taken);
                let PathMap { paths, mut values } = taken;
                values[i] = value;
                *self = PathMap { paths, values };
                proof {
                    assert(self.keys() =~= before.keys());
                    self.lemma_view();
                    assert(self@ =~= before@.insert(path@, value)) by {
                        assert forall|p: Seq<char>| self@.contains_key(p) implies #[trigger] self@[p]
                            == before@.insert(path@, value)[p] by {
                            let j = self.keys().index_of(p);
                            if p == path@ {
                                assert(j == i);
                            }
                        }
                    }
                }
            },
            None => {
                let mut taken = PathMap::new();
                core::mem::swap(self, &mut taken);
                let PathMap { mut paths, mut values } = taken;
                paths.push(path);
                values.push(value);
                assert(Seq::new(paths.len() as nat, |i: int| paths[i]@) =~= before.keys().push(
                    path@,
                ));
                *self = PathMap { paths, values };
                proof {
                    assert(self.keys() =~= before.keys().push(path@));
                    assert(self.keys().no_duplicates());
                    self.lemma_view();
                    assert(self@ =~= before@.insert(path@, value)) by {
                        assert forall|p: Seq<char>| self@.contains_key(p) <==> before@.insert(
                            path@,
                            value,
                        ).contains_key(p) by {
                            if before.keys().contains(p) {
                                let j = before.keys().index_of(p);
                                assert(self.keys()[j] == p);
                            }
                            if p == path@ {
                                assert(self.keys()[before.keys().len() as int] == p);
                            }
                        }
                        assert forall|p: Seq<char>| self@.contains_key(p) implies #[trigger] self@[p]
                            == before@.insert(path@, value)[p] by {
                            let j = self.keys().index_of(p);
                            if p != path@ {
                                assert(before.keys()[j] == p);
                                let k = before.keys().index_of(p);
                                assert(j == k);
                            }
                        }
                    }
                }
            },
        }
    }

    /// Drops the entry of `path`, if it has one. The other entries keep their order.
    pub fn remove(&mut self, path: &str)
        ensures
            final(self).wf(),
            final(self)@ == old(self)@.remove(path@),
            !old(self)@.contains_key(path@) ==> final(self).keys() == old(self).keys(),
            old(self)@.contains_key(path@) ==> final(self).keys() == old(self).keys().remove(
                old(self).keys().index_of(path@),
            ),
    {
        proof {
            use_type_invariant(&*self);
            self.lemma_view();
        }
        let ghost before = *self;
        match self.position(path) {
            Some(i) => {
                let mut taken = PathMap::new();
                core::mem::swap(self, &mut taken);
                let PathMap { mut paths, mut values } = taken;
                paths.remove(i);
                values.remove(i);
                proof {
                    let keys = Seq::new(paths.len() as nat, |i: int| paths[i]@);
                    assert(keys =~= before.keys().remove(i as int));
                    assert forall|a: int, b: int|
                        0 <= a < keys.len() && 0 <= b < keys.len() && a != b implies keys[a]
                        != keys[b] by {
                        let a0 = if a < i { a } else { a + 1 };
                        let b0 = if b < i { b } else { b + 1 };
                        assert(keys[a] == before.keys()[a0]);
                        assert(keys[b] == before.keys()[b0]);
                    }
                }
                *self = PathMap { paths, values };
                proof {
                    let at = before.keys().index_of(path@);
                    assert(at == i);
                    assert(self.keys() =~= before.keys().remove(i as int));
                    assert(self.keys().no_duplicates()) by {
                        assert forall|a: int, b: int|
                            0 <= a < self.keys().len() && 0 <= b < self.keys().len() && a
                                != b implies self.keys()[a] != self.keys()[b] by {
                            let a0 = if a < i { a } else { a + 1 };
                            let b0 = if b < i { b } else { b + 1 };
                            assert(self.keys()[a] == before.keys()[a0]);
                            assert(self.keys()[b] == before.keys()[b0]);
                        }
                    }
                    self.lemma_view();
                    assert(self@ =~= before@.remove(path@)) by {
                        assert forall|p: Seq<char>| self@.contains_key(p) <==> before@.remove(
                            path@,
                        ).contains_key(p) by {
                            if self.keys().contains(p) {
                                let j = self.keys().index_of(p);
                                let j0 = if j < i { j } else { j + 1 };
                                assert(before.keys()[j0] == p);
                            }
                            if before.keys().contains(p) && p != path@ {
                                let k = before.keys().index_of(p);
                                let k1 = if k < i { k } else { k - 1 };
                                assert(self.keys()[k1] == p);
                            }
                        }
                        assert forall|p: Seq<char>| self@.contains_key(p) implies #[trigger] self@[p]
                            == before@.remove(path@)[p] by {
                            let j = self.keys().index_of(p);
                            let j0 = if j < i { j } else { j + 1 };
                            assert(before.keys()[j0] == p);
                            let k = before.keys().index_of(p);
                            assert(k == j0);
                        }
                    }
                }
            },
            None => {
                assert(self@ =~= before@.remove(path@));
            },
        }
    }

    /// Takes the map apart: its paths and its values, entry by entry.
    pub fn into_entries(self) -> (entries: (Vec<String>, Vec<V>))
        ensures
            self.wf(),
            texts_of(entries.0@) == self.keys(),
            entries.1@ == self.values(),
    {
        proof {
            use_type_invariant(&self);
        }
        let PathMap { paths, values } = self;
        assert(texts_of(paths@) =~= Seq::new(paths.len() as nat, |i: int| paths[i]@));
        (paths, values)
    }

    /// Whether `path` has an entry.
    pub fn contains_key(&self, path: &str) -> (found: bool)
        ensures
            self.wf(),
            found == self@.contains_key(path@),
    {
        self.position(path).is_some()
    }
}

} // verus!
