//! A map and a set that refuse to overwrite an entry or remove a missing one.
use vstd::prelude::*;
use std::collections::{HashMap, HashSet};
use std::hash::Hash;
use vstd::std_specs::hash::obeys_key_model;
use vstd::std_specs::iter::IteratorSpec;

verus! {

broadcast use vstd::std_specs::hash::group_hash_axioms;

/// A map in which every insert is of a new key and every remove is of a present one.
pub struct CheckedMap<K, V> {
    pub inner: HashMap<K, V>,
}

impl<K: Eq + Hash, V> CheckedMap<K, V> {
    pub open spec fn view(&self) -> Map<K, V> {
        self.inner@
    }

    pub fn new() -> (r: CheckedMap<K, V>)
        ensures
            r.view() == Map::<K, V>::empty(),
    {
        CheckedMap { inner: HashMap::new() }
    }

    pub fn contains_key(&self, key: &K) -> (r: bool)
        requires
            obeys_key_model::<K>(),
        ensures
            r == self.view().contains_key(*key),
    {
        self.inner.contains_key(key)
    }

    pub fn get(&self, key: &K) -> (r: Option<&V>)
        requires
            obeys_key_model::<K>(),
        ensures
            match r {
                Some(v) => self.view().contains_key(*key) && *v == self.view()[*key],
                None => !self.view().contains_key(*key),
            },
    {
        self.inner.get(key)
    }

    /// Write access to the value under `key`, where there is one.
    pub fn get_mut(&mut self, key: &K) -> (r: Option<&mut V>)
        where
            K: Copy,
        requires
            obeys_key_model::<K>(),
        ensures
            match r {
                Some(v) => old(self).view().contains_key(*key) && *v == old(self).view()[*key] && final(self).view()
                    == old(self).view().insert(*key, *final(v)),
                None => !old(self).view().contains_key(*key) && final(self).view() == old(self).view(),
            },
    {
        broadcast use vstd::std_specs::hash::axiom_has_resolved_entry;
        let ghost before = self.view();
        match self.inner.entry(*key) {
            std::collections::hash_map::Entry::Occupied(o) => Some(o.into_mut()),
            std::collections::hash_map::Entry::Vacant(_) => {
                proof {
                    assert(before.remove(*key) =~= before);
                }
                None
            },
        }
    }

    /// Adds a value under a key that is not present yet.
    pub fn insert(&mut self, key: K, value: V)
        requires
            obeys_key_model::<K>(),
            !old(self).view().contains_key(key),
        ensures
            final(self).view() == old(self).view().insert(key, value),
    {
        self.inner.insert(key, value);
    }

    /// Takes out the value of a key that is present.
    pub fn remove(&mut self, key: &K) -> (r: Option<V>)
        requires
            obeys_key_model::<K>(),
            old(self).view().contains_key(*key),
        ensures
            r == Some(old(self).view()[*key]),
            final(self).view() == old(self).view().remove(*key),
    {
        self.inner.remove(key)
    }

    /// Every entry, in no particular order.
    pub fn iter<'a>(&'a self) -> (r: Vec<(&'a K, &'a V)>)
        requires
            obeys_key_model::<K>(),
        ensures
            r@.len() == self.view().len(),
            forall|i: int| 0 <= i < r@.len() ==> #[trigger] self.view().contains_key(*r@[i].0) && self.view()[*r@[i].0]
                == *r@[i].1,
            forall|k: K| #[trigger] self.view().contains_key(k) ==> exists|i: int| 0 <= i < r@.len() && *(#[trigger] r@[i]).0 == k,
    {
        let mut out: Vec<(&'a K, &'a V)> = Vec::new();
        for (k, v) in it: self.inner.iter()
            invariant
                out@.len() == it.index(),
                it.seq() == vstd::std_specs::hash::spec_hash_map_iter(&self.inner).remaining(),
                forall|i: int| 0 <= i < out@.len() ==> #[trigger] out@[i] == it.seq()[i],
        {
            out.push((k, v));
        }
        proof {
            let s = vstd::std_specs::hash::spec_hash_map_iter(&self.inner).remaining();
            assert forall|i: int| 0 <= i < out@.len() implies #[trigger] self.view().contains_key(*out@[i].0)
                && self.view()[*out@[i].0] == *out@[i].1 by {
                assert(out@[i] == s[i]);
                assert(s.contains(s[i]));
            }
            assert forall|k: K| #[trigger] self.view().contains_key(k) implies exists|i: int|
                0 <= i < out@.len() && *(#[trigger] out@[i]).0 == k by {
                let pr = (&k, &self.view()[k]);
                assert(s.contains(pr));
                let i = choose|i: int| 0 <= i < s.len() && s[i] == pr;
                assert(out@[i] == s[i]);
            }
        }
        out
    }

    pub fn len(&self) -> (r: usize)
        requires
            obeys_key_model::<K>(),
        ensures
            r == self.view().len(),
    {
        self.inner.len()
    }

    pub fn clear(&mut self)
        ensures
            final(self).view() == Map::<K, V>::empty(),
    {
        self.inner.clear();
    }
}

/// A set in which every insert is of a new key and every remove is of a present one.
pub struct CheckedSet<K> {
    pub inner: HashSet<K>,
}

impl<K: Eq + Hash> CheckedSet<K> {
    pub open spec fn view(&self) -> Set<K> {
        self.inner@
    }

    pub fn new() -> (r: CheckedSet<K>)
        ensures
            r.view() == Set::<K>::empty(),
    {
        CheckedSet { inner: HashSet::new() }
    }

    pub fn contains(&self, key: &K) -> (r: bool)
        requires
            obeys_key_model::<K>(),
        ensures
            r == self.view().contains(*key),
    {
        self.inner.contains(key)
    }

    /// Adds a key that is not present yet.
    pub fn insert(&mut self, key: K)
        requires
            obeys_key_model::<K>(),
            !old(self).view().contains(key),
        ensures
            final(self).view() == old(self).view().insert(key),
    {
        self.inner.insert(key);
    }

    /// Takes out a key that is present.
    pub fn remove(&mut self, key: &K)
        requires
            obeys_key_model::<K>(),
            old(self).view().contains(*key),
        ensures
            final(self).view() == old(self).view().remove(*key),
    {
        self.inner.remove(key);
    }

    /// Every key, in no particular order.
    pub fn iter<'a>(&'a self) -> (r: Vec<&'a K>)
        requires
            obeys_key_model::<K>(),
        ensures
            r@.len() == self.view().len(),
            forall|i: int| 0 <= i < r@.len() ==> #[trigger] self.view().contains(*r@[i]),
            forall|k: K| #[trigger] self.view().contains(k) ==> exists|i: int| 0 <= i < r@.len() && *(#[trigger] r@[i]) == k,
    {
        let mut out: Vec<&'a K> = Vec::new();
        for k in it: self.inner.iter()
            invariant
                out@.len() == it.index(),
                it.seq() == vstd::std_specs::hash::spec_hash_keys_iter(&self.inner).remaining(),
                forall|i: int| 0 <= i < out@.len() ==> #[trigger] out@[i] == it.seq()[i],
        {
            out.push(k);
        }
        proof {
            let s = vstd::std_specs::hash::spec_hash_keys_iter(&self.inner).remaining();
            assert(s.unref().to_set() == self.view());
            assert forall|i: int| 0 <= i < out@.len() implies #[trigger] self.view().contains(*out@[i]) by {
                assert(s.unref()[i] == *s[i]);
                assert(s.unref().to_set().contains(s.unref()[i]));
            }
            assert forall|k: K| #[trigger] self.view().contains(k) implies exists|i: int|
                0 <= i < out@.len() && *(#[trigger] out@[i]) == k by {
                assert(s.unref().to_set().contains(k));
                let i = choose|i: int| 0 <= i < s.unref().len() && s.unref()[i] == k;
                assert(out@[i] == s[i]);
            }
        }
        out
    }
}

} // verus!
