//! A small keyed collection: records under textual identifiers, each identifier
//! at most once, kept in the order in which they were first inserted.
use crate::keys::distinct;
use crate::keys::lemma_place_of;
use crate::keys::place_of;
use crate::keys::position;
use vstd::prelude::*;

verus! {

/// Records of type `T`, each under its own identifier.
#[derive(Clone, Debug)]
pub struct Directory<T> {
    keys: Vec<String>,
    vals: Vec<T>,
}

/// The mathematical content of a [`Directory`]: which record stands under which
/// identifier, and the order in which the identifiers were inserted.
pub struct DirectoryModel<V> {
    pub map: Map<Seq<char>, V>,
    pub order: Seq<Seq<char>>,
}

impl<V> DirectoryModel<V> {
    /// The identifiers in `order` are exactly those that have a record, each once.
    pub open spec fn wf(self) -> bool {
        &&& distinct(self.order)
        &&& forall|k: Seq<char>| self.map.dom().contains(k) <==> self.order.contains(k)
    }

    /// The directory without any record.
    pub open spec fn empty() -> Self {
        DirectoryModel { map: Map::empty(), order: Seq::empty() }
    }

    /// Whether a record stands under `key`.
    pub open spec fn contains(self, key: Seq<char>) -> bool {
        self.map.dom().contains(key)
    }

    /// The record under `key`.
    pub open spec fn get(self, key: Seq<char>) -> V {
        self.map[key]
    }

    /// The number of records.
    pub open spec fn len(self) -> nat {
        self.order.len()
    }

    /// The directory with `value` under `key`: a new identifier goes to the end
    /// of the order, a known one keeps its place.
    pub open spec fn put(self, key: Seq<char>, value: V) -> Self {
        DirectoryModel {
            map: self.map.insert(key, value),
            order: if self.contains(key) {
                self.order
            } else {
                self.order.push(key)
            },
        }
    }

    /// The directory without the record under `key`.
    pub open spec fn without(self, key: Seq<char>) -> Self {
        if self.contains(key) {
            DirectoryModel {
                map: self.map.remove(key),
                order: self.order.remove(place_of(self.order, key)),
            }
        } else {
            self
        }
    }

    /// Putting a record keeps the directory well formed.
    pub proof fn lemma_put_wf(self, key: Seq<char>, value: V)
        requires
            self.wf(),
        ensures
            self.put(key, value).wf(),
    {
        let after = self.put(key, value);
        if self.contains(key) {
            assert(self.order.contains(key));
        } else {
            assert(!self.order.contains(key));
            assert forall|k: Seq<char>| after.map.dom().contains(k) <==> after.order.contains(
                k,
            ) by {
                if self.map.dom().contains(k) {
                    assert(self.order.contains(k));
                    let i = place_of(self.order, k);
                    assert(after.order[i] == k);
                }
                if k == key {
                    assert(after.order[self.order.len() as int] == k);
                }
                if after.order.contains(k) {
                    let j = place_of(after.order, k);
                    if j < self.order.len() {
                        assert(self.order[j] == k);
                        assert(self.order.contains(k));
                    }
                }
            }
        }
    }

    /// Taking a record out keeps the directory well formed.
    pub proof fn lemma_without_wf(self, key: Seq<char>)
        requires
            self.wf(),
        ensures
            self.without(key).wf(),
    {
        if self.contains(key) {
            let after = self.without(key);
            assert(self.order.contains(key));
            let p = place_of(self.order, key);
            assert(0 <= p < self.order.len() && self.order[p] == key);
            assert forall|k: Seq<char>| after.map.dom().contains(k) <==> after.order.contains(
                k,
            ) by {
                if after.map.dom().contains(k) {
                    assert(self.order.contains(k));
                    let i = place_of(self.order, k);
                    if i < p {
                        assert(after.order[i] == k);
                    } else {
                        assert(after.order[i - 1] == k);
                    }
                }
                if after.order.contains(k) {
                    let j = place_of(after.order, k);
                    if j < p {
                        assert(self.order[j] == k);
                    } else {
                        assert(self.order[j + 1] == k);
                    }
                    assert(self.order.contains(k));
                }
            }
        }
    }
}

/// The content of a directory that holds `vals[i]` under `keys[i]`.
pub open spec fn model_of<T: View>(keys: Seq<Seq<char>>, vals: Seq<T>) -> DirectoryModel<T::V> {
    DirectoryModel {
        map: Map::new(|k: Seq<char>| keys.contains(k), |k: Seq<char>| vals[place_of(keys, k)]@),
        order: keys,
    }
}

/// Replacing the record at one place puts the new record under that place's identifier.
pub proof fn lemma_model_of_update<T: View>(keys: Seq<Seq<char>>, vals: Seq<T>, i: int, v: T)
    requires
        distinct(keys),
        keys.len() == vals.len(),
        0 <= i < keys.len(),
    ensures
        model_of(keys, vals.update(i, v)) == model_of(keys, vals).put(keys[i], v@),
{
    lemma_place_of(keys, i);
    let a = model_of(keys, vals.update(i, v));
    let b = model_of(keys, vals).put(keys[i], v@);
    assert forall|k: Seq<char>| keys.contains(k) implies #[trigger] a.map[k] == b.map[k] by {
        let p = place_of(keys, k);
        assert(0 <= p < keys.len() && keys[p] == k);
    }
    assert(a.map =~= b.map);
}

impl<T: View> View for Directory<T> {
    type V = DirectoryModel<T::V>;

    closed spec fn view(&self) -> DirectoryModel<T::V> {
        model_of(self.keys.deep_view(), self.vals@)
    }
}

impl<T: View> Directory<T> {
    /// The invariant of the type: one record per identifier, no identifier twice.
    pub closed spec fn wf(&self) -> bool {
        &&& self.keys.len() == self.vals.len()
        &&& distinct(self.keys.deep_view())
    }

    /// A well-formed directory has a well-formed content.
    pub proof fn lemma_wf(&self)
        requires
            self.wf(),
        ensures
            self@.wf(),
    {
    }

    /// The directory without any record.
    pub fn new() -> (d: Self)
        ensures
            d.wf(),
            d@ == DirectoryModel::<T::V>::empty(),
    {
        let d = Directory { keys: Vec::new(), vals: Vec::new() };
        assert(d@.map =~= Map::empty());
        assert(d@.order =~= Seq::empty());
        d
    }

    /// The number of records.
    pub fn len(&self) -> (n: usize)
        requires
            self.wf(),
        ensures
            n == self@.len(),
    {
        self.keys.len()
    }

    /// The place of `key` in the order, if a record stands under it.
    pub fn find(&self, key: &String) -> (r: Option<usize>)
        requires
            self.wf(),
        ensures
            match r {
                Some(i) => i < self@.len() && self@.order[i as int] == key@ && self@.contains(
                    key@,
                ),
                None => !self@.contains(key@),
            },
    {
        position(&self.keys, key)
    }

    /// Whether a record stands under `key`.
    pub fn contains_key(&self, key: &String) -> (found: bool)
        requires
            self.wf(),
        ensures
            found == self@.contains(key@),
    {
        self.find(key).is_some()
    }

    /// The identifier at place `i` of the order.
    pub fn key_at(&self, i: usize) -> (key: &String)
        requires
            self.wf(),
            i < self@.len(),
        ensures
            key@ == self@.order[i as int],
            self@.contains(key@),
    {
        &self.keys[i]
    }

    /// The record under the identifier at place `i` of the order.
    pub fn value_at(&self, i: usize) -> (value: &T)
        requires
            self.wf(),
            i < self@.len(),
        ensures
            value@ == self@.get(self@.order[i as int]),
    {
        proof {
            lemma_place_of(self.keys.deep_view(), i as int);
        }
        &self.vals[i]
    }

    /// The record under the identifier at place `i`, to be changed in place.
    pub fn value_at_mut(&mut self, i: usize) -> (value: &mut T)
        requires
            old(self).wf(),
            i < old(self)@.len(),
        ensures
            value@ == old(self)@.get(old(self)@.order[i as int]),
            final(self).wf(),
            final(self)@ == old(self)@.put(old(self)@.order[i as int], final(value)@),
    {
        proof {
            let keys = self.keys.deep_view();
            let vals = self.vals@;
            lemma_place_of(keys, i as int);
            assert forall|v: T| #[trigger]
                model_of(keys, vals.update(i as int, v)) == model_of(keys, vals).put(
                    keys[i as int],
                    v@,
                ) by {
                lemma_model_of_update(keys, vals, i as int, v);
            }
        }
        &mut self.vals[i]
    }

    /// The record under `key`, if there is one.
    pub fn get(&self, key: &String) -> (value: Option<&T>)
        requires
            self.wf(),
        ensures
            match value {
                Some(v) => self@.contains(key@) && v@ == self@.get(key@),
                None => !self@.contains(key@),
            },
    {
        match self.find(key) {
            Some(i) => Some(self.value_at(i)),
            None => None,
        }
    }

    /// Puts `value` under `key`, in place of the record that stood there if any.
    pub fn insert(&mut self, key: String, value: T)
        requires
            old(self).wf(),
        ensures
            final(self).wf(),
            final(self)@ == old(self)@.put(key@, value@),
    {
        let ghost keys = self.keys.deep_view();
        match position(&self.keys, &key) {
            Some(i) => {
                proof {
                    lemma_place_of(keys, i as int);
                }
                proof {
                    lemma_model_of_update(keys, self.vals@, i as int, value);
                }
                self.vals[i] = value;
            },
            None => {
                self.keys.push(key);
                self.vals.push(value);
                let ghost grown = self.keys.deep_view();
                assert(grown =~= keys.push(key@));
                assert(distinct(grown));
                assert(self@.map =~= old(self)@.put(key@, value@).map) by {
                    assert forall|k: Seq<char>| grown.contains(k) <==> (keys.contains(k) || k
                        == key@) by {
                        if keys.contains(k) {
                            let p = place_of(keys, k);
                            assert(grown[p] == k);
                        }
                        if k == key@ {
                            assert(grown[keys.len() as int] == k);
                        }
                    }
                    assert forall|k: Seq<char>| grown.contains(k) implies #[trigger] self@.map[k]
                        == old(self)@.put(key@, value@).map[k] by {
                        if k == key@ {
                            lemma_place_of(grown, keys.len() as int);
                        } else {
                            let p = place_of(keys, k);
                            assert(0 <= p < keys.len() && keys[p] == k);
                            lemma_place_of(grown, p);
                        }
                    }
                }
            },
        }
    }

    /// Takes out the record under `key` and hands it back, if there is one.
    pub fn remove(&mut self, key: &String) -> (value: Option<T>)
        requires
            old(self).wf(),
        ensures
            final(self).wf(),
            final(self)@ == old(self)@.without(key@),
            match value {
                Some(v) => old(self)@.contains(key@) && v@ == old(self)@.get(key@),
                None => !old(self)@.contains(key@),
            },
    {
        let ghost keys = self.keys.deep_view();
        match position(&self.keys, key) {
            Some(i) => {
                proof {
                    lemma_place_of(keys, i as int);
                }
                self.keys.remove(i);
                let value = self.vals.remove(i);
                let ghost rest = self.keys.deep_view();
                assert(rest =~= keys.remove(i as int));
                assert(distinct(rest)) by {
                    assert forall|a: int, b: int| 0 <= a < b < rest.len() implies rest[a]
                        != rest[b] by {
                        let a0 = if a < i { a } else { a + 1 };
                        let b0 = if b < i { b } else { b + 1 };
                        assert(rest[a] == keys[a0] && rest[b] == keys[b0]);
                    }
                }
                assert(self@.map =~= old(self)@.without(key@).map) by {
                    assert forall|k: Seq<char>| rest.contains(k) <==> (keys.contains(k) && k
                        != key@) by {
                        if rest.contains(k) {
                            let q = place_of(rest, k);
                            let q0 = if q < i { q } else { q + 1 };
                            assert(keys[q0] == k);
                            if k == key@ {
                                lemma_place_of(keys, q0);
                            }
                        }
                        if keys.contains(k) && k != key@ {
                            let p = place_of(keys, k);
                            assert(0 <= p < keys.len() && keys[p] == k);
                            let moved = if p < i { p } else { p - 1 };
                            assert(rest[moved] == k);
                        }
                    }
                    assert forall|k: Seq<char>| rest.contains(k) implies #[trigger] self@.map[k]
                        == old(self)@.without(key@).map[k] by {
                        let q = place_of(rest, k);
                        assert(0 <= q < rest.len() && rest[q] == k);
                        let q0 = if q < i { q } else { q + 1 };
                        assert(keys[q0] == k);
                        lemma_place_of(keys, q0);
                    }
                }
                Some(value)
            },
            None => None,
        }
    }

    /// A copy of the identifiers in their order.
    pub fn keys(&self) -> (keys: Vec<String>)
        requires
            self.wf(),
        ensures
            keys.deep_view() == self@.order,
    {
        let mut out: Vec<String> = Vec::new();
        let mut i: usize = 0;
        while i < self.keys.len()
            invariant
                i <= self.keys.len(),
                out.len() == i,
                forall|j: int| 0 <= j < i ==> (#[trigger] out@[j])@ == self.keys@[j]@,
            decreases self.keys.len() - i,
        {
            out.push(self.keys[i].clone());
            i = i + 1;
        }
        assert(out.deep_view() =~= self.keys.deep_view());
        out
    }
}

} // verus!
