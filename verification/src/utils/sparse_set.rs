use vstd::prelude::*;

verus! {

/// `Vec::capacity`: std documents the capacity as the number of elements the
/// vector can hold without reallocating, which is never below its length.
/// The exact value is chosen by the allocator and is not stated.
#[verifier::external_body]
pub(crate) fn vec_capacity<T>(v: &Vec<T>) -> (r: usize)
    ensures
        r >= v@.len(),
{
    v.capacity()
}

/// The value stored under `key` in `m`, if any.
pub open spec fn map_lookup<K, V>(m: Map<K, V>, key: K) -> Option<V> {
    if m.dom().contains(key) {
        Some(m[key])
    } else {
        None
    }
}

/// A vector of optional slots addressed by index: a map from `usize` keys to
/// values, backed by a `Vec<Option<V>>` that grows to fit the largest key.
#[derive(Debug)]
pub struct SparseVec<V> {
    data: Vec<Option<V>>,
}

impl<V> View for SparseVec<V> {
    type V = Map<usize, V>;

    closed spec fn view(&self) -> Map<usize, V> {
        Map::new(
            |i: usize| i < self.data@.len() && self.data@[i as int] is Some,
            |i: usize| self.data@[i as int]->Some_0,
        )
    }
}

impl<V> SparseVec<V> {
    /// Number of slots currently allocated in the backing vector.
    pub closed spec fn slot_count(&self) -> nat {
        self.data@.len()
    }

    proof fn lemma_keys_below_slot_count(&self)
        ensures
            forall|i: usize| #[trigger] self@.dom().contains(i) ==> (i as nat) < self.slot_count(),
    {
    }

    pub fn new() -> (r: Self)
        ensures
            r@ == Map::<usize, V>::empty(),
    {
        let r = SparseVec { data: Vec::new() };
        assert(r@ =~= Map::<usize, V>::empty());
        r
    }

    pub fn with_capacity(capacity: usize) -> (r: Self)
        ensures
            r@ == Map::<usize, V>::empty(),
    {
        let r = SparseVec { data: Vec::with_capacity(capacity) };
        assert(r@ =~= Map::<usize, V>::empty());
        r
    }

    /// The capacity of the backing vector; every stored key lies below it.
    pub fn capacity(&self) -> (r: usize)
        ensures
            r >= self.slot_count(),
            forall|i: usize| #[trigger] self@.dom().contains(i) ==> i < r,
    {
        proof {
            self.lemma_keys_below_slot_count();
        }
        vec_capacity(&self.data)
    }

    /// Stores `value` under `index`, growing the backing vector when needed and
    /// replacing any value that was stored there.
    pub fn insert(&mut self, value: V, index: usize)
        requires
            index < usize::MAX,
        ensures
            final(self)@ == old(self)@.insert(index, value),
            final(self).slot_count() == if index < old(self).slot_count() {
                old(self).slot_count()
            } else {
                (index + 1) as nat
            },
    {
        let ghost old_data = self.data@;
        if self.data.len() <= index {
            while self.data.len() <= index
                invariant
                    index < usize::MAX,
                    old_data.len() <= self.data@.len() <= index + 1,
                    forall|i: int| 0 <= i < old_data.len() ==> self.data@[i] == old_data[i],
                    forall|i: int| old_data.len() <= i < self.data@.len() ==> self.data@[i] is None,
                decreases index + 1 - self.data@.len(),
            {
                self.data.push(None);
            }
        }
        self.data.set(index, Some(value));
        proof {
            let old_map = Map::new(
                |i: usize| i < old_data.len() && old_data[i as int] is Some,
                |i: usize| old_data[i as int]->Some_0,
            );
            assert(self@ =~= old_map.insert(index, value));
        }
    }

    pub fn contains(&self, index: usize) -> (r: bool)
        ensures
            r == self@.dom().contains(index),
    {
        index < self.data.len() && self.data[index].is_some()
    }

    pub fn get(&self, index: usize) -> (r: Option<&V>)
        ensures
            r == (if self@.dom().contains(index) {
                Some(&self@[index])
            } else {
                None
            }),
    {
        if index < self.data.len() {
            self.data[index].as_ref()
        } else {
            None
        }
    }

    /// A mutable reference to the value under `index`, if there is one; what is
    /// written through it becomes the value stored under `index`.
    pub fn get_mut(&mut self, index: usize) -> (r: Option<&mut V>)
        ensures
            old(self)@.dom().contains(index) ==> {
                &&& r is Some
                &&& *r->Some_0 == old(self)@[index]
                &&& final(self)@ == old(self)@.insert(index, *final(r->Some_0))
            },
            !old(self)@.dom().contains(index) ==> r is None && final(self)@ == old(self)@,
            final(self).slot_count() == old(self).slot_count(),
    {
        if index < self.data.len() {
            let r = match &mut self.data[index] {
                Some(v) => Some(v),
                None => None,
            };
            r
        } else {
            None
        }
    }

    /// Takes the value stored under `index` out of the vector, if there is one.
    pub fn remove(&mut self, index: usize) -> (r: Option<V>)
        ensures
            r == map_lookup(old(self)@, index),
            final(self)@ == old(self)@.remove(index),
            final(self).slot_count() == old(self).slot_count(),
    {
        if index < self.data.len() {
            let ghost old_map = self@;
            let r = self.data[index].take();
            assert(self@ =~= old_map.remove(index));
            r
        } else {
            assert(self@ =~= old(self)@.remove(index));
            None
        }
    }
}

impl<V> Default for SparseVec<V> {
    fn default() -> (r: Self)
        ensures
            r@ == Map::<usize, V>::empty(),
    {
        Self::new()
    }
}

/// A set of values addressed by the keys it hands out on insertion.
///
/// Values are kept packed in `dense`; `indices[p]` is the key under which the
/// value at dense position `p` was stored, and `sparse` maps each live key to
/// the dense position of its value.
#[derive(Debug)]
pub struct SparseSet<V> {
    dense: Vec<V>,
    indices: Vec<usize>,
    sparse: SparseVec<usize>,
}

impl<V> View for SparseSet<V> {
    type V = Map<usize, V>;

    /// The value reachable under each live key.
    closed spec fn view(&self) -> Map<usize, V> {
        Map::new(
            |k: usize| self.sparse@.dom().contains(k),
            |k: usize| self.dense@[self.sparse@[k] as int],
        )
    }
}

impl<V> SparseSet<V> {
    /// The values in dense order.
    pub closed spec fn dense_values(&self) -> Seq<V> {
        self.dense@
    }

    /// For each dense position, the key its value was stored under.
    pub closed spec fn owner_keys(&self) -> Seq<usize> {
        self.indices@
    }

    /// The dense position of each live key.
    pub closed spec fn positions(&self) -> Map<usize, usize> {
        self.sparse@
    }

    pub closed spec fn spec_len(&self) -> nat {
        self.dense@.len()
    }

    /// Internal consistency: one owner key per value, and each live key leads
    /// to a dense position whose owner is that key.
    pub closed spec fn wf(&self) -> bool {
        &&& self.indices@.len() == self.dense@.len()
        &&& forall|k: usize| #[trigger] self.sparse@.dom().contains(k) ==> {
            &&& (self.sparse@[k] as int) < self.dense@.len()
            &&& self.indices@[self.sparse@[k] as int] == k
        }
    }

    /// Every value is reachable through its owner key: no value was cut off
    /// by a later insertion that reused its key.
    pub open spec fn packed(&self) -> bool {
        forall|p: int| 0 <= p < self.owner_keys().len() ==> {
            &&& self.positions().dom().contains(#[trigger] self.owner_keys()[p])
            &&& self.positions()[self.owner_keys()[p]] == p
        }
    }

    /// `remove(key)` only has to re-link the value that moves into the freed
    /// dense position; this holds when that value's owner key is still live.
    pub open spec fn removable(&self, key: usize) -> bool {
        let last = self.spec_len() - 1;
        self.positions().dom().contains(key) && self.positions()[key] != last ==> {
            &&& self.owner_keys()[last] != key
            &&& self.positions().dom().contains(self.owner_keys()[last])
        }
    }

    spec fn packed_raw(&self) -> bool {
        forall|p: int| 0 <= p < self.indices@.len() ==> {
            &&& self.sparse@.dom().contains(#[trigger] self.indices@[p])
            &&& self.sparse@[self.indices@[p]] == p
        }
    }

    proof fn lemma_packed_unfold(&self)
        ensures
            self.packed() <==> self.packed_raw(),
    {
        if self.packed() {
            assert forall|p: int| 0 <= p < self.indices@.len() implies {
                &&& self.sparse@.dom().contains(#[trigger] self.indices@[p])
                &&& self.sparse@[self.indices@[p]] == p
            } by {
                assert(self.owner_keys()[p] == self.indices@[p]);
            }
        }
        if self.packed_raw() {
            assert forall|p: int| 0 <= p < self.owner_keys().len() implies {
                &&& self.positions().dom().contains(#[trigger] self.owner_keys()[p])
                &&& self.positions()[self.owner_keys()[p]] == p
            } by {
                assert(self.owner_keys()[p] == self.indices@[p]);
            }
        }
    }

    pub fn new() -> (r: Self)
        ensures
            r.wf(),
            r.packed(),
            r@ == Map::<usize, V>::empty(),
            r.spec_len() == 0,
    {
        let r = SparseSet { dense: Vec::new(), indices: Vec::new(), sparse: SparseVec::new() };
        assert(r@ =~= Map::<usize, V>::empty());
        r
    }

    pub fn with_capacity(capacity: usize) -> (r: Self)
        ensures
            r.wf(),
            r.packed(),
            r@ == Map::<usize, V>::empty(),
            r.spec_len() == 0,
    {
        let r = SparseSet {
            dense: Vec::with_capacity(capacity),
            indices: Vec::with_capacity(capacity),
            sparse: SparseVec::with_capacity(capacity),
        };
        assert(r@ =~= Map::<usize, V>::empty());
        r
    }

    /// The number of values held, reachable or not.
    pub fn len(&self) -> (r: usize)
        ensures
            r == self.spec_len(),
    {
        self.dense.len()
    }

    /// The capacity of the dense storage.
    pub fn capacity(&self) -> (r: usize)
        ensures
            r >= self.spec_len(),
    {
        vec_capacity(&self.dense)
    }

    pub fn is_empty(&self) -> (r: bool)
        ensures
            r == (self.spec_len() == 0),
    {
        self.dense.len() == 0
    }

    /// Stores `value` and returns its key, which is the number of values held
    /// before the call.
    pub fn insert(&mut self, value: V) -> (r: usize)
        requires
            old(self).wf(),
            old(self).spec_len() < usize::MAX,
        ensures
            final(self).wf(),
            r == old(self).spec_len(),
            final(self).spec_len() == old(self).spec_len() + 1,
            final(self)@ == old(self)@.insert(r, value),
            final(self).dense_values() == old(self).dense_values().push(value),
            final(self).owner_keys() == old(self).owner_keys().push(r),
            final(self).positions() == old(self).positions().insert(r, r),
            old(self).packed() && !old(self)@.dom().contains(r) ==> final(self).packed(),
    {
        let new_index = self.dense.len();
        self.sparse.insert(new_index, new_index);
        self.indices.push(new_index);
        self.dense.push(value);
        assert(self@ =~= old(self)@.insert(new_index, value));
        proof {
            old(self).lemma_packed_unfold();
            self.lemma_packed_unfold();
            if old(self).packed() && !old(self)@.dom().contains(new_index) {
                assert forall|p: int| 0 <= p < self.indices@.len() implies {
                    &&& self.sparse@.dom().contains(#[trigger] self.indices@[p])
                    &&& self.sparse@[self.indices@[p]] == p
                } by {
                    if p < new_index {
                        assert(old(self).indices@[p] == self.indices@[p]);
                        assert(old(self).sparse@.dom().contains(old(self).indices@[p]));
                    }
                }
            }
        }
        new_index
    }

    pub fn get(&self, index: usize) -> (r: Option<&V>)
        requires
            self.wf(),
        ensures
            r == (if self@.dom().contains(index) {
                Some(&self@[index])
            } else {
                None
            }),
    {
        match self.sparse.get(index) {
            Some(dense_index) => Some(&self.dense[*dense_index]),
            None => None,
        }
    }

    /// A mutable reference to the value under `index`, if the key is live;
    /// what is written through it becomes the value under `index`.
    pub fn get_mut(&mut self, index: usize) -> (r: Option<&mut V>)
        requires
            old(self).wf(),
        ensures
            final(self).wf(),
            final(self).owner_keys() == old(self).owner_keys(),
            final(self).positions() == old(self).positions(),
            final(self).spec_len() == old(self).spec_len(),
            old(self)@.dom().contains(index) ==> {
                &&& r is Some
                &&& *r->Some_0 == old(self)@[index]
                &&& final(self)@ == old(self)@.insert(index, *final(r->Some_0))
                &&& final(self).dense_values() == old(self).dense_values().update(
                    old(self).positions()[index] as int,
                    *final(r->Some_0),
                )
            },
            !old(self)@.dom().contains(index) ==> r is None && final(self)@ == old(self)@
                && final(self).dense_values() == old(self).dense_values(),
    {
        match self.sparse.get(index) {
            Some(dense_index) => {
                let d = *dense_index;
                Some(&mut self.dense[d])
            },
            None => None,
        }
    }

    pub fn contains(&self, index: usize) -> (r: bool)
        ensures
            r == self@.dom().contains(index),
    {
        self.sparse.contains(index)
    }

    /// Takes the value under `index` out of the set. Its dense position is
    /// filled with the last value, whose owner key is re-linked to it.
    #[verifier::spinoff_prover]
    pub fn remove(&mut self, index: usize) -> (r: Option<V>)
        requires
            old(self).wf(),
            old(self).removable(index),
        ensures
            final(self).wf(),
            final(self).spec_len() == if old(self)@.dom().contains(index) {
                old(self).spec_len() - 1
            } else {
                old(self).spec_len() as int
            },
            !old(self)@.dom().contains(index) ==> {
                &&& r is None
                &&& final(self).dense_values() == old(self).dense_values()
                &&& final(self).owner_keys() == old(self).owner_keys()
                &&& final(self).positions() == old(self).positions()
            },
            old(self)@.dom().contains(index) ==> {
                let d = old(self).positions()[index] as int;
                let last = old(self).spec_len() - 1;
                let moved_key = old(self).owner_keys()[last];
                &&& r == Some(old(self)@[index])
                &&& final(self).dense_values() == old(self).dense_values().update(
                    d,
                    old(self).dense_values()[last],
                ).drop_last()
                &&& final(self).owner_keys() == old(self).owner_keys().update(d, moved_key).drop_last()
                &&& final(self).positions() == if d == last {
                    old(self).positions().remove(index)
                } else {
                    old(self).positions().remove(index).insert(moved_key, d as usize)
                }
            },
            old(self).packed() ==> {
                &&& final(self).packed()
                &&& final(self)@ == old(self)@.remove(index)
                &&& r == map_lookup(old(self)@, index)
            },
    {
        match self.sparse.remove(index) {
            Some(dense_index) => {
                let ghost d = dense_index as int;
                let last_index = self.dense.len() - 1;
                let is_last = dense_index == last_index;
                let val = self.dense.swap_remove(dense_index);
                self.indices.swap_remove(dense_index);
                if !is_last {
                    let swapped_index = self.indices[dense_index];
                    let slot = self.sparse.get_mut(swapped_index);
                    *slot.unwrap() = dense_index;
                }
                proof {
                    self.lemma_remove_effect(*old(self), index, d);
                    assert(old(self)@.dom().contains(index));
                    assert(val == old(self)@[index]);
                    assert(Some(val) == map_lookup(old(self)@, index));
                    assert(old(self).packed() ==> self.packed() && self@ == old(self)@.remove(index));
                }
                Some(val)
            },
            None => {
                proof {
                    assert(!old(self)@.dom().contains(index));
                    assert(self@ =~= old(self)@);
                    assert(self@ =~= old(self)@.remove(index));
                    assert(self.positions() =~= old(self).positions());
                    assert(self.owner_keys() == old(self).owner_keys());
                }
                None
            },
        }
    }

    #[verifier::spinoff_prover]
    proof fn lemma_remove_effect(&self, pre: Self, index: usize, d: int)
        requires
            pre.wf(),
            pre.removable(index),
            pre.sparse@.dom().contains(index),
            d == pre.sparse@[index],
            self.dense@ == pre.dense@.update(d, pre.dense@[pre.dense@.len() - 1]).drop_last(),
            self.indices@ == pre.indices@.update(d, pre.indices@[pre.dense@.len() - 1]).drop_last(),
            self.sparse@ == if d == pre.dense@.len() - 1 {
                pre.sparse@.remove(index)
            } else {
                pre.sparse@.remove(index).insert(pre.indices@[pre.dense@.len() - 1], d as usize)
            },
        ensures
            self.wf(),
            pre.packed() ==> self.packed() && self@ == pre@.remove(index),
    {
        let last = pre.dense@.len() - 1;
        assert forall|k: usize| #[trigger] self.sparse@.dom().contains(k) implies {
            &&& (self.sparse@[k] as int) < self.dense@.len()
            &&& self.indices@[self.sparse@[k] as int] == k
        } by {
            if d != last && k == pre.indices@[last] {
            } else {
                assert(pre.sparse@.dom().contains(k));
                let p = pre.sparse@[k] as int;
                assert(pre.indices@[p] == k);
                assert(p != d);
                if p == last {
                    assert(pre.indices@[last] == k);
                }
            }
        }
        pre.lemma_packed_unfold();
        self.lemma_packed_unfold();
        if pre.packed() {
            assert forall|p: int| 0 <= p < self.indices@.len() implies {
                &&& self.sparse@.dom().contains(#[trigger] self.indices@[p])
                &&& self.sparse@[self.indices@[p]] == p
            } by {
                if p == d {
                } else {
                    assert(pre.indices@[p] == self.indices@[p]);
                    assert(pre.sparse@.dom().contains(pre.indices@[p]));
                    assert(pre.sparse@[pre.indices@[p]] == p);
                    assert(pre.indices@[p] != index);
                    if d != last {
                        assert(pre.sparse@[pre.indices@[last]] == last);
                        assert(pre.indices@[p] != pre.indices@[last]);
                    }
                }
            }
            assert forall|k: usize| #[trigger] self@.dom().contains(k) implies self@[k] == pre@[k] by {
                assert(k != index);
                if d != last && k == pre.indices@[last] {
                    assert(pre.sparse@[k] == last);
                } else {
                    let p = pre.sparse@[k] as int;
                    assert(pre.indices@[p] == k);
                    assert(p != last || d == last);
                }
            }
            assert(self@ =~= pre@.remove(index));
        }
    }
}

impl<V> Default for SparseSet<V> {
    fn default() -> (r: Self)
        ensures
            r.wf(),
            r.packed(),
            r@ == Map::<usize, V>::empty(),
            r.spec_len() == 0,
    {
        Self::new()
    }
}

/// A set whose values are all reachable can have any key removed: the value
/// that moves into the freed position is always owned by a live key.
pub proof fn lemma_packed_removable<V>(s: &SparseSet<V>, key: usize)
    requires
        s.wf(),
        s.packed(),
    ensures
        s.removable(key),
{
    let last = s.dense@.len() - 1;
    s.lemma_packed_unfold();
    if s.sparse@.dom().contains(key) && s.sparse@[key] != last {
        assert(s.sparse@.dom().contains(s.indices@[last]));
        assert(s.sparse@[s.indices@[last]] == last);
    }
}

/// When every value is reachable, the number of values equals the number of
/// live keys; in particular the set is empty exactly when no key is live.
pub proof fn lemma_packed_len<V>(s: &SparseSet<V>)
    requires
        s.wf(),
        s.packed(),
    ensures
        s@.dom().finite(),
        s@.dom().len() == s.spec_len(),
        s.spec_len() == 0 <==> s@.dom() == Set::<usize>::empty(),
{
    let keys = s.indices@;
    s.lemma_packed_unfold();
    assert(keys.no_duplicates()) by {
        assert forall|i: int, j: int| 0 <= i < keys.len() && 0 <= j < keys.len() && i != j implies keys[i] != keys[j] by {
            assert(s.sparse@[keys[i]] == i);
            assert(s.sparse@[keys[j]] == j);
        }
    }
    assert(s@.dom() =~= keys.to_set()) by {
        assert forall|k: usize| s@.dom().contains(k) implies keys.to_set().contains(k) by {
            let p = s.sparse@[k] as int;
            assert(keys[p] == k);
        }
    }
    keys.unique_seq_to_set();
    vstd::seq_lib::seq_to_set_is_finite(keys);
    if s.spec_len() != 0 {
        assert(s@.dom().contains(keys[0]));
        assert(!Set::<usize>::empty().contains(keys[0]));
    } else {
        assert(s@.dom() =~= Set::<usize>::empty());
    }
}

/// Looking a key up right after storing it gives the stored value, and taking
/// it out again restores the earlier contents when the key was not in use.
pub proof fn lemma_insert_then_remove<V>(before: Map<usize, V>, key: usize, value: V)
    ensures
        map_lookup(before.insert(key, value), key) == Some(value),
        !before.dom().contains(key) ==> before.insert(key, value).remove(key) == before,
{
    if !before.dom().contains(key) {
        assert(before.insert(key, value).remove(key) =~= before);
    }
}

} // verus!
