//! Map keyed by 128-bit source identifiers.
//!
//! The render thread keeps a dozen small tables that map a source id to some
//! per-source record.

use vstd::prelude::*;

use crate::keyed_map;
use crate::keyed_map::KeyedMap;

verus! {

/// Map from source id to `V` that also remembers the order of its keys.
pub struct IdMap<V> {
    inner: KeyedMap<u128, V>,
}

/// Whether two mappings say the same about `k`.
pub open spec fn agree<V>(a: Map<u128, V>, b: Map<u128, V>, k: u128) -> bool {
    &&& a.dom().contains(k) == b.dom().contains(k)
    &&& a.dom().contains(k) ==> a[k] == b[k]
}

/// Whether two mappings say the same about every id but one.
pub open spec fn agree_except<V>(a: Map<u128, V>, b: Map<u128, V>, id: u128) -> bool {
    forall|k: u128| k != id ==> #[trigger] agree(a, b, k)
}

impl<V> View for IdMap<V> {
    type V = Map<u128, V>;

    closed spec fn view(&self) -> Map<u128, V> {
        self.inner@
    }
}

impl<V> IdMap<V> {
    /// Every key is listed once.
    pub closed spec fn wf(self) -> bool {
        self.inner.wf()
    }

    /// The keys in the order in which they were first inserted.
    pub closed spec fn order(self) -> Seq<u128> {
        self.inner.order()
    }

    /// The order lists each key exactly once and nothing else.
    pub proof fn lemma_order(self)
        requires
            self.wf(),
        ensures
            self.order().no_duplicates(),
            forall|k: u128| self.order().contains(k) <==> #[trigger] self@.dom().contains(k),
            forall|i: int|
                0 <= i < self.order().len() ==> self@.dom().contains(#[trigger] self.order()[i]),
    {
        self.inner.lemma_order();
    }

    /// An empty map.
    pub fn new() -> (r: Self)
        ensures
            r.wf(),
            r@ == Map::<u128, V>::empty(),
            r.order() == Seq::<u128>::empty(),
    {
        IdMap { inner: KeyedMap::new() }
    }

    /// Whether `id` is a key.
    pub fn contains(&self, id: u128) -> (r: bool)
        requires
            self.wf(),
        ensures
            r == self@.dom().contains(id),
    {
        self.inner.contains(&id)
    }

    /// The value stored under `id`.
    pub fn get(&self, id: u128) -> (r: Option<&V>)
        requires
            self.wf(),
        ensures
            match r {
                Some(v) => self@.dom().contains(id) && *v == self@[id],
                None => !self@.dom().contains(id),
            },
    {
        self.inner.get(&id)
    }

    /// Mutable access to the value stored under `id`.
    pub fn get_mut(&mut self, id: u128) -> (r: Option<&mut V>)
        requires
            old(self).wf(),
        ensures
            final(self).wf(),
            final(self).order() == old(self).order(),
            match r {
                Some(v) => {
                    &&& old(self)@.dom().contains(id)
                    &&& *v == old(self)@[id]
                    &&& final(self)@ == old(self)@.insert(id, *final(v))
                },
                None => !old(self)@.dom().contains(id) && final(self)@ == old(self)@,
            },
    {
        self.inner.get_mut(&id)
    }

    /// Stores `value` under `id` and hands back what it replaces.
    pub fn insert(&mut self, id: u128, value: V) -> (r: Option<V>)
        requires
            old(self).wf(),
        ensures
            final(self).wf(),
            final(self)@ == old(self)@.insert(id, value),
            final(self).order() == (if old(self)@.dom().contains(id) {
                old(self).order()
            } else {
                old(self).order().push(id)
            }),
            r == (if old(self)@.dom().contains(id) {
                Some(old(self)@[id])
            } else {
                None
            }),
    {
        self.inner.insert(id, value)
    }

    /// Removes `id` and hands back its value.
    pub fn remove(&mut self, id: u128) -> (r: Option<V>)
        requires
            old(self).wf(),
        ensures
            final(self).wf(),
            final(self)@ == old(self)@.remove(id),
            final(self).order() == keyed_map::without(old(self).order(), id),
            r == (if old(self)@.dom().contains(id) {
                Some(old(self)@[id])
            } else {
                None
            }),
    {
        self.inner.remove(&id)
    }

    /// Forgets every entry.
    pub fn clear(&mut self)
        ensures
            final(self).wf(),
            final(self)@ == Map::<u128, V>::empty(),
            final(self).order() == Seq::<u128>::empty(),
    {
        self.inner.clear();
    }

    /// The keys in order.
    pub fn keys(&self) -> (r: Vec<u128>)
        ensures
            r@ == self.order(),
    {
        let mut r: Vec<u128> = Vec::new();
        let mut i: usize = 0;
        while i < self.inner.len()
            invariant
                i <= self.order().len(),
                r@ == self.order().take(i as int),
            decreases self.order().len() - i,
        {
            r.push(*self.inner.key_at(i));
            i += 1;
        }
        assert(r@ =~= self.order());
        r
    }

    /// How many keys there are.
    pub fn len(&self) -> (r: usize)
        ensures
            r == self.order().len(),
    {
        self.inner.len()
    }
}

} // verus!
