//! A map from texts to small copyable values, kept as two parallel vectors.
//!
//! `HashMap` with `String` keys has no usable specification, so the graph's
//! name indexes use this map instead; its invariant is that no key occurs
//! twice.

use vstd::prelude::*;
use crate::text::text_eq;

verus! {

/// A map from texts to values of type `V`.
pub struct TextIndex<V> {
    keys: Vec<String>,
    vals: Vec<V>,
}

/// The map that inserting the pairs `(keys[i], vals[i])` in order builds.
pub open spec fn pairs_map<V>(keys: Seq<Seq<char>>, vals: Seq<V>) -> Map<Seq<char>, V>
    decreases keys.len(),
{
    if keys.len() == 0 || vals.len() == 0 {
        Map::empty()
    } else {
        pairs_map(keys.drop_last(), vals.drop_last()).insert(keys.last(), vals.last())
    }
}

/// The texts of `keys`.
pub open spec fn key_views(keys: Seq<String>) -> Seq<Seq<char>> {
    keys.map_values(|k: String| k@)
}

proof fn lemma_pairs_map_get<V>(keys: Seq<Seq<char>>, vals: Seq<V>, i: int)
    requires
        keys.len() == vals.len(),
        0 <= i < keys.len(),
        forall|a: int, b: int| 0 <= a < b < keys.len() ==> keys[a] != keys[b],
    ensures
        pairs_map(keys, vals).contains_key(keys[i]),
        pairs_map(keys, vals)[keys[i]] == vals[i],
    decreases keys.len(),
{
    if i < keys.len() - 1 {
        lemma_pairs_map_get(keys.drop_last(), vals.drop_last(), i);
    }
}

proof fn lemma_pairs_map_absent<V>(keys: Seq<Seq<char>>, vals: Seq<V>, k: Seq<char>)
    requires
        keys.len() == vals.len(),
        forall|a: int| 0 <= a < keys.len() ==> keys[a] != k,
    ensures
        !pairs_map(keys, vals).contains_key(k),
    decreases keys.len(),
{
    if keys.len() > 0 {
        lemma_pairs_map_absent(keys.drop_last(), vals.drop_last(), k);
    }
}

proof fn lemma_pairs_map_update<V>(keys: Seq<Seq<char>>, vals: Seq<V>, i: int, v: V)
    requires
        keys.len() == vals.len(),
        0 <= i < keys.len(),
        forall|a: int, b: int| 0 <= a < b < keys.len() ==> keys[a] != keys[b],
    ensures
        pairs_map(keys, vals.update(i, v)) == pairs_map(keys, vals).insert(keys[i], v),
    decreases keys.len(),
{
    let n = keys.len();
    if i == n - 1 {
        assert(vals.update(i, v).drop_last() =~= vals.drop_last());
        lemma_pairs_map_absent(keys.drop_last(), vals.drop_last(), keys[i]);
        assert(pairs_map(keys, vals.update(i, v)) =~= pairs_map(keys, vals).insert(keys[i], v));
    } else {
        assert(vals.update(i, v).drop_last() =~= vals.drop_last().update(i, v));
        lemma_pairs_map_update(keys.drop_last(), vals.drop_last(), i, v);
        assert(pairs_map(keys, vals.update(i, v)) =~= pairs_map(keys, vals).insert(keys[i], v));
    }
}

impl<V: Copy> TextIndex<V> {
    /// The pairs of the index, as a map.
    pub closed spec fn view(&self) -> Map<Seq<char>, V> {
        pairs_map(key_views(self.keys@), self.vals@)
    }

    /// No key occurs twice, and every key has its value.
    pub closed spec fn wf(&self) -> bool {
        &&& self.keys@.len() == self.vals@.len()
        &&& forall|a: int, b: int|
            0 <= a < b < self.keys@.len() ==> self.keys@[a]@ != self.keys@[b]@
    }

    /// An empty index.
    pub fn new() -> (r: Self)
        ensures
            r.wf(),
            r.view() == Map::<Seq<char>, V>::empty(),
            r.count() == 0,
    {
        let r = TextIndex { keys: Vec::new(), vals: Vec::new() };
        assert(key_views(r.keys@).len() == 0);
        r
    }

    fn position(&self, key: &str) -> (r: Option<usize>)
        requires
            self.wf(),
        ensures
            r matches Some(i) ==> i < self.keys@.len() && self.keys@[i as int]@ == key@,
            r is None ==> forall|a: int| 0 <= a < self.keys@.len() ==> self.keys@[a]@ != key@,
    {
        let mut i: usize = 0;
        while i < self.keys.len()
            invariant
                i <= self.keys@.len(),
                forall|a: int| 0 <= a < i ==> self.keys@[a]@ != key@,
            decreases self.keys@.len() - i,
        {
            if text_eq(self.keys[i].as_str(), key) {
                return Some(i);
            }
            i = i + 1;
        }
        None
    }

    proof fn lemma_view_at(&self, i: int)
        requires
            self.wf(),
            0 <= i < self.keys@.len(),
        ensures
            self.view().contains_key(self.keys@[i]@),
            self.view()[self.keys@[i]@] == self.vals@[i],
    {
        lemma_pairs_map_get(key_views(self.keys@), self.vals@, i);
    }

    /// The value of `key`.
    pub fn get(&self, key: &str) -> (r: Option<V>)
        requires
            self.wf(),
        ensures
            r matches Some(v) ==> self.view().contains_key(key@) && self.view()[key@] == v,
            r is None ==> !self.view().contains_key(key@),
    {
        match self.position(key) {
            Some(i) => {
                proof {
                    self.lemma_view_at(i as int);
                }
                Some(self.vals[i])
            },
            None => {
                proof {
                    lemma_pairs_map_absent(key_views(self.keys@), self.vals@, key@);
                }
                None
            },
        }
    }

    /// Maps `key` to `value`, replacing its earlier value.
    pub fn insert(&mut self, key: String, value: V)
        requires
            old(self).wf(),
        ensures
            final(self).wf(),
            final(self).view() == old(self).view().insert(key@, value),
            final(self).count() == old(self).count() + if old(self).view().contains_key(key@) {
                0nat
            } else {
                1nat
            },
    {
        match self.position(key.as_str()) {
            Some(i) => {
                proof {
                    lemma_pairs_map_update(key_views(self.keys@), self.vals@, i as int, value);
                    self.lemma_view_at(i as int);
                }
                self.vals.set(i, value);
            },
            None => {
                proof {
                    lemma_pairs_map_absent(key_views(self.keys@), self.vals@, key@);
                }
                let ghost old_keys = self.keys@;
                self.keys.push(key);
                self.vals.push(value);
                assert(key_views(self.keys@).drop_last() =~= key_views(old_keys));
                assert(self.vals@.drop_last() =~= old(self).vals@);
            },
        }
    }

    /// The number of keys.
    pub closed spec fn count(&self) -> nat {
        self.keys@.len()
    }

    /// The number of keys.
    pub fn len(&self) -> (r: usize)
        ensures
            r == self.count(),
    {
        self.keys.len()
    }
}

} // verus!
