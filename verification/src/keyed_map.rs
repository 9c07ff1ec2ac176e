//! Association list keyed by values that are compared by their view.
//!
//! Caches whose keys are paths or text descriptions hold few entries; a vector
//! that remembers the order in which keys arrived is all that is needed.

use vstd::prelude::*;

use crate::text::{same_bytes, same_text};

verus! {

/// A key: two keys with the same view are the same key.
pub trait MapKey: View {
    /// Compares two keys.
    fn same_key(&self, other: &Self) -> (r: bool)
        ensures
            r == (self@ == other@),
    ;
}

impl MapKey for Vec<u8> {
    fn same_key(&self, other: &Self) -> (r: bool)
    {
        same_bytes(self, other)
    }
}

impl MapKey for u128 {
    fn same_key(&self, other: &Self) -> (r: bool) {
        *self == *other
    }
}

impl MapKey for usize {
    fn same_key(&self, other: &Self) -> (r: bool) {
        *self == *other
    }
}

impl MapKey for String {
    fn same_key(&self, other: &Self) -> (r: bool) {
        same_text(self.as_str(), other.as_str())
    }
}

/// Map from `K` to `V` that also remembers the order of its keys.
pub struct KeyedMap<K, V> {
    entries: Vec<(K, V)>,
}

/// The keys of an entry list, in order.
spec fn entry_keys<K: MapKey, V>(entries: Seq<(K, V)>) -> Seq<K::V> {
    entries.map_values(|e: (K, V)| e.0@)
}

/// The mapping that an entry list stands for.
spec fn entry_map<K: MapKey, V>(entries: Seq<(K, V)>) -> Map<K::V, V> {
    Map::new(
        |k: K::V| entry_keys(entries).contains(k),
        |k: K::V| entries[entry_keys(entries).index_of(k)].1,
    )
}

/// `keys` without `id`.
pub open spec fn without<Q>(keys: Seq<Q>, id: Q) -> Seq<Q> {
    keys.filter(|k: Q| k != id)
}

proof fn lemma_entry_at<K: MapKey, V>(entries: Seq<(K, V)>, i: int)
    requires
        entry_keys(entries).no_duplicates(),
        0 <= i < entries.len(),
    ensures
        entry_map(entries).dom().contains(entries[i].0@),
        entry_map(entries)[entries[i].0@] == entries[i].1,
        entry_keys(entries).index_of(entries[i].0@) == i,
{
    let keys = entry_keys(entries);
    assert(keys[i] == entries[i].0@);
    assert(keys.contains(entries[i].0@));
    let j = keys.index_of(entries[i].0@);
    assert(keys[j] == keys[i]);
}

proof fn lemma_entry_update<K: MapKey, V>(before: Seq<(K, V)>, i: int, k: K, value: V)
    requires
        entry_keys(before).no_duplicates(),
        0 <= i < before.len(),
        k@ == before[i].0@,
    ensures
        ({
            let after = before.update(i, (k, value));
            &&& entry_map(after) == entry_map(before).insert(k@, value)
            &&& entry_keys(after) == entry_keys(before)
        }),
{
    let id = before[i].0@;
    let after = before.update(i, (k, value));
    lemma_entry_at(before, i);
    assert(entry_keys(after) =~= entry_keys(before));
    assert forall|q: K::V| entry_keys(after).contains(q) implies {
        entry_map(after)[q] == entry_map(before).insert(id, value)[q]
    } by {
        let j = entry_keys(after).index_of(q);
        lemma_entry_at(after, j);
        lemma_entry_at(before, j);
    }
    assert(entry_map(after) =~= entry_map(before).insert(id, value));
}

proof fn lemma_without_absent<Q>(keys: Seq<Q>, id: Q)
    requires
        !keys.contains(id),
    ensures
        without(keys, id) =~= keys,
    decreases keys.len(),
{
    reveal(Seq::filter);
    if keys.len() > 0 {
        assert(keys.contains(keys.last())) by {
            assert(keys[keys.len() - 1] == keys.last());
        }
        assert(!keys.drop_last().contains(id)) by {
            if keys.drop_last().contains(id) {
                let i = keys.drop_last().index_of(id);
                assert(keys[i] == id);
            }
        }
        lemma_without_absent(keys.drop_last(), id);
        assert(keys =~= keys.drop_last().push(keys.last()));
    }
}

proof fn lemma_without_at<Q>(keys: Seq<Q>, i: int)
    requires
        keys.no_duplicates(),
        0 <= i < keys.len(),
    ensures
        without(keys, keys[i]) =~= keys.remove(i),
    decreases keys.len(),
{
    reveal(Seq::filter);
    let id = keys[i];
    let init = keys.drop_last();
    if i == keys.len() - 1 {
        assert(!init.contains(id)) by {
            if init.contains(id) {
                let j = init.index_of(id);
                assert(keys[j] == keys[i]);
            }
        }
        lemma_without_absent(init, id);
        assert(keys.remove(i) =~= init);
    } else {
        assert(init[i] == id);
        lemma_without_at(init, i);
        assert(keys.last() != id);
        assert(keys.remove(i) =~= init.remove(i).push(keys.last()));
    }
}

impl<K: MapKey, V> View for KeyedMap<K, V> {
    type V = Map<K::V, V>;

    closed spec fn view(&self) -> Map<K::V, V> {
        entry_map(self.entries@)
    }
}

impl<K: MapKey, V> KeyedMap<K, V> {
    /// Every key is listed once.
    pub closed spec fn wf(self) -> bool {
        entry_keys(self.entries@).no_duplicates()
    }

    /// The keys in the order in which they were first inserted.
    pub closed spec fn order(self) -> Seq<K::V> {
        entry_keys(self.entries@)
    }

    /// The order lists each key exactly once and nothing else.
    pub proof fn lemma_order(self)
        requires
            self.wf(),
        ensures
            self.order().no_duplicates(),
            forall|k: K::V| self.order().contains(k) <==> #[trigger] self@.dom().contains(k),
            forall|i: int|
                0 <= i < self.order().len() ==> self@.dom().contains(#[trigger] self.order()[i]),
    {
    }

    /// The order is as long as there are keys.
    pub proof fn lemma_size(self)
        requires
            self.wf(),
        ensures
            self@.dom().finite(),
            self@.dom().len() == self.order().len(),
    {
        self.order().unique_seq_to_set();
        assert(self.order().to_set() =~= self@.dom());
        vstd::seq_lib::seq_to_set_is_finite(self.order());
    }

    /// An empty map.
    pub fn new() -> (r: Self)
        ensures
            r.wf(),
            r@ == Map::<K::V, V>::empty(),
            r.order() == Seq::<K::V>::empty(),
    {
        let r = KeyedMap { entries: Vec::new() };
        assert(r.order() =~= Seq::<K::V>::empty());
        assert(r@ =~= Map::<K::V, V>::empty());
        r
    }

    fn position(&self, id: &K) -> (r: Option<usize>)
        ensures
            match r {
                Some(i) => i < self.entries@.len() && self.entries@[i as int].0@ == id@,
                None => !self.order().contains(id@),
            },
    {
        let mut i: usize = 0;
        while i < self.entries.len()
            invariant
                i <= self.entries@.len(),
                forall|j: int| 0 <= j < i ==> self.entries@[j].0@ != id@,
            decreases self.entries@.len() - i,
        {
            if self.entries[i].0.same_key(id) {
                return Some(i);
            }
            i += 1;
        }
        None
    }

    /// Whether `id` is a key.
    pub fn contains(&self, id: &K) -> (r: bool)
        requires
            self.wf(),
        ensures
            r == self@.dom().contains(id@),
    {
        match self.position(id) {
            Some(i) => {
                proof {
                    lemma_entry_at(self.entries@, i as int);
                }
                true
            },
            None => false,
        }
    }

    /// The value stored under `id`.
    pub fn get(&self, id: &K) -> (r: Option<&V>)
        requires
            self.wf(),
        ensures
            match r {
                Some(v) => self@.dom().contains(id@) && *v == self@[id@],
                None => !self@.dom().contains(id@),
            },
    {
        match self.position(id) {
            Some(i) => {
                proof {
                    lemma_entry_at(self.entries@, i as int);
                }
                Some(&self.entries[i].1)
            },
            None => None,
        }
    }

    /// Mutable access to the value stored under `id`.
    pub fn get_mut(&mut self, id: &K) -> (r: Option<&mut V>)
        requires
            old(self).wf(),
        ensures
            final(self).wf(),
            final(self).order() == old(self).order(),
            match r {
                Some(v) => {
                    &&& old(self)@.dom().contains(id@)
                    &&& *v == old(self)@[id@]
                    &&& final(self)@ == old(self)@.insert(id@, *final(v))
                },
                None => !old(self)@.dom().contains(id@) && final(self)@ == old(self)@,
            },
    {
        match self.position(id) {
            Some(i) => {
                let ghost before = self.entries@;
                proof {
                    lemma_entry_at(before, i as int);
                }
                let v = &mut self.entries[i].1;
                proof {
                    lemma_entry_update(before, i as int, before[i as int].0, *final(v));
                }
                Some(v)
            },
            None => None,
        }
    }

    /// Stores `value` under `id` and hands back what it replaces.
    pub fn insert(&mut self, id: K, value: V) -> (r: Option<V>)
        requires
            old(self).wf(),
        ensures
            final(self).wf(),
            final(self)@ == old(self)@.insert(id@, value),
            final(self).order() == (if old(self)@.dom().contains(id@) {
                old(self).order()
            } else {
                old(self).order().push(id@)
            }),
            r == (if old(self)@.dom().contains(id@) {
                Some(old(self)@[id@])
            } else {
                None
            }),
    {
        let ghost before = self.entries@;
        match self.position(&id) {
            Some(i) => {
                proof {
                    lemma_entry_at(before, i as int);
                }
                let mut slot = (id, value);
                std::mem::swap(&mut slot, &mut self.entries[i]);
                proof {
                    lemma_entry_update(before, i as int, id, value);
                    assert(self.entries@ =~= before.update(i as int, (id, value)));
                }
                Some(slot.1)
            },
            None => {
                self.entries.push((id, value));
                proof {
                    let after = self.entries@;
                    assert(after =~= before.push((id, value)));
                    assert(entry_keys(after) =~= entry_keys(before).push(id@));
                    assert(entry_keys(after).no_duplicates());
                    lemma_entry_at(after, before.len() as int);
                    assert forall|k: K::V|
                        entry_keys(after).contains(k) <==> (k == id@ || entry_keys(before).contains(
                            k,
                        )) by {
                        if entry_keys(before).contains(k) {
                            let j = entry_keys(before).index_of(k);
                            assert(entry_keys(after)[j] == k);
                        }
                        if entry_keys(after).contains(k) && k != id@ {
                            let j = entry_keys(after).index_of(k);
                            assert(entry_keys(before)[j] == k);
                        }
                        assert(entry_keys(after)[before.len() as int] == id@);
                    }
                    assert forall|k: K::V| entry_keys(after).contains(k) implies {
                        entry_map(after)[k] == entry_map(before).insert(id@, value)[k]
                    } by {
                        if k != id@ {
                            let j = entry_keys(before).index_of(k);
                            assert(entry_keys(before)[j] == k);
                            lemma_entry_at(after, j);
                            lemma_entry_at(before, j);
                        }
                    }
                    assert(entry_map(after) =~= entry_map(before).insert(id@, value));
                }
                None
            },
        }
    }

    /// Removes `id` and hands back its value.
    pub fn remove(&mut self, id: &K) -> (r: Option<V>)
        requires
            old(self).wf(),
        ensures
            final(self).wf(),
            final(self)@ == old(self)@.remove(id@),
            final(self).order() == without(old(self).order(), id@),
            r == (if old(self)@.dom().contains(id@) {
                Some(old(self)@[id@])
            } else {
                None
            }),
    {
        let ghost before = self.entries@;
        match self.position(id) {
            Some(i) => {
                proof {
                    lemma_entry_at(before, i as int);
                    lemma_without_at(entry_keys(before), i as int);
                }
                let gone = self.entries.remove(i);
                proof {
                    let after = self.entries@;
                    assert(after =~= before.remove(i as int));
                    assert(entry_keys(after) =~= entry_keys(before).remove(i as int));
                    assert forall|j: int, k: int|
                        0 <= j < after.len() && 0 <= k < after.len() && j != k implies entry_keys(
                        after,
                    )[j] != entry_keys(after)[k] by {
                        let j0 = if j < i { j } else { j + 1 };
                        let k0 = if k < i { k } else { k + 1 };
                        assert(entry_keys(before)[j0] != entry_keys(before)[k0]);
                    }
                    assert forall|k: K::V|
                        entry_keys(after).contains(k) <==> (k != id@ && entry_keys(before).contains(
                            k,
                        )) by {
                        if entry_keys(after).contains(k) {
                            let j = entry_keys(after).index_of(k);
                            let j0 = if j < i { j } else { j + 1 };
                            assert(entry_keys(before)[j0] == k);
                            assert(entry_keys(before)[i as int] == id@);
                        }
                        if k != id@ && entry_keys(before).contains(k) {
                            let j = entry_keys(before).index_of(k);
                            let j0 = if j < i { j } else { j - 1 };
                            assert(entry_keys(after)[j0] == k);
                        }
                    }
                    assert forall|k: K::V| entry_keys(after).contains(k) implies {
                        entry_map(after)[k] == entry_map(before)[k]
                    } by {
                        let j = entry_keys(after).index_of(k);
                        let j0 = if j < i { j } else { j + 1 };
                        lemma_entry_at(after, j);
                        lemma_entry_at(before, j0);
                    }
                    assert(entry_map(after) =~= entry_map(before).remove(id@));
                }
                Some(gone.1)
            },
            None => {
                proof {
                    lemma_without_absent(entry_keys(before), id@);
                    assert(entry_map(before) =~= entry_map(before).remove(id@));
                }
                None
            },
        }
    }

    /// Forgets every entry.
    pub fn clear(&mut self)
        ensures
            final(self).wf(),
            final(self)@ == Map::<K::V, V>::empty(),
            final(self).order() == Seq::<K::V>::empty(),
    {
        self.entries.clear();
        assert(self.order() =~= Seq::<K::V>::empty());
        assert(self@ =~= Map::<K::V, V>::empty());
    }

    /// The key at a position of the order.
    pub fn key_at(&self, i: usize) -> (r: &K)
        requires
            i < self.order().len(),
        ensures
            r@ == self.order()[i as int],
    {
        &self.entries[i].0
    }

    /// The value at a position of the order.
    pub fn value_at(&self, i: usize) -> (r: &V)
        requires
            self.wf(),
            i < self.order().len(),
        ensures
            self@.dom().contains(self.order()[i as int]),
            *r == self@[self.order()[i as int]],
    {
        proof {
            lemma_entry_at(self.entries@, i as int);
        }
        &self.entries[i].1
    }

    /// How many keys there are.
    pub fn len(&self) -> (r: usize)
        ensures
            r == self.order().len(),
    {
        self.entries.len()
    }
}

/// Whether a predicate can answer `answer` for a key.
pub open spec fn answers<K: MapKey, P: Fn(&K) -> bool>(keep: P, key: K::V, answer: bool) -> bool {
    exists|k: K| k@ == key && #[trigger] keep.ensures((&k,), answer)
}

/// What a map says about one key after it was filtered by a predicate.
pub open spec fn retained_at<K: MapKey, V, P: Fn(&K) -> bool>(
    before: Map<K::V, V>,
    after: Map<K::V, V>,
    keep: P,
    key: K::V,
) -> bool {
    if before.dom().contains(key) {
        ||| after.dom().contains(key) && after[key] == before[key] && answers::<K, P>(
            keep,
            key,
            true,
        )
        ||| !after.dom().contains(key) && answers::<K, P>(keep, key, false)
    } else {
        !after.dom().contains(key)
    }
}

spec fn filtered<K: MapKey, V, P: Fn(&K) -> bool>(
    before: Seq<(K, V)>,
    after: Seq<(K, V)>,
    keep: P,
    from: Seq<int>,
    n: int,
) -> bool {
    &&& from.len() == after.len()
    &&& forall|j: int| 0 <= j < from.len() ==> 0 <= #[trigger] from[j] < n && after[j] == before[from[j]]
    &&& forall|a: int, b: int| 0 <= a < b < from.len() ==> #[trigger] from[a] < #[trigger] from[b]
    &&& forall|j: int| 0 <= j < from.len() ==> answers::<K, P>(keep, before[#[trigger] from[j]].0@, true)
    &&& forall|i: int|
        0 <= i < n && !from.contains(i) ==> answers::<K, P>(keep, (#[trigger] before[i]).0@, false)
}

impl<K: MapKey, V> KeyedMap<K, V> {
    /// Keeps the entries whose key the predicate accepts.
    pub fn retain<P: Fn(&K) -> bool>(&mut self, keep: &P)
        requires
            old(self).wf(),
            forall|k: K| #[trigger] keep.requires((&k,)),
        ensures
            final(self).wf(),
            forall|key: K::V| #[trigger] retained_at::<K, V, P>(old(self)@, final(self)@, *keep, key),
            final(self).order() == old(self).order().filter(
                |k: K::V| final(self)@.dom().contains(k),
            ),
    {
        let ghost before = self.entries@;
        let ghost mut from = Seq::<int>::empty();
        let ghost mut n: int = 0;
        let mut i: usize = 0;
        proof {
            assert(self.entries@.take(0) =~= Seq::<(K, V)>::empty());
            assert(before.skip(0) =~= before);
        }
        while i < self.entries.len()
            invariant
                i <= self.entries@.len(),
                forall|k: K| #[trigger] keep.requires((&k,)),
                0 <= n <= before.len(),
                from.len() == i,
                n - i == before.len() - self.entries@.len(),
                filtered::<K, V, P>(before, self.entries@.take(i as int), *keep, from, n),
                self.entries@.skip(i as int) =~= before.skip(n),
            decreases self.entries@.len() - i,
        {
            let ghost prior = self.entries@;
            proof {
                assert(prior.skip(i as int)[0] == before.skip(n)[0]);
                assert(prior[i as int] == before[n]);
                assert(prior.skip(i + 1) =~= before.skip(n + 1)) by {
                    assert forall|j: int| 0 <= j < prior.len() - i - 1 implies #[trigger] prior.skip(
                        i + 1,
                    )[j] == before.skip(n + 1)[j] by {
                        assert(prior.skip(i as int)[j + 1] == before.skip(n)[j + 1]);
                    }
                }
            }
            let answer = keep(&self.entries[i].0);
            proof {
                assert(keep.ensures((&prior[i as int].0,), answer));
                assert(answers::<K, P>(*keep, before[n].0@, answer));
            }
            if answer {
                proof {
                    let old_from = from;
                    from = from.push(n);
                    assert(prior.take(i + 1) =~= prior.take(i as int).push(before[n]));
                    assert forall|k: int|
                        0 <= k < n + 1 && !from.contains(k) implies answers::<K, P>(
                        *keep,
                        (#[trigger] before[k]).0@,
                        false,
                    ) by {
                        assert(from[i as int] == n);
                        assert(!old_from.contains(k)) by {
                            if old_from.contains(k) {
                                let j = old_from.index_of(k);
                                assert(from[j] == k);
                            }
                        }
                    }
                    n = n + 1;
                }
                i += 1;
            } else {
                self.entries.remove(i);
                proof {
                    assert(self.entries@.take(i as int) =~= prior.take(i as int));
                    assert(self.entries@.skip(i as int) =~= prior.skip(i + 1));
                    n = n + 1;
                }
            }
        }
        proof {
            let after = self.entries@;
            assert(after.take(i as int) =~= after);
            assert(n == before.len());
            lemma_filtered::<K, V, P>(before, after, *keep, from);
        }
    }
}

proof fn lemma_filtered<K: MapKey, V, P: Fn(&K) -> bool>(
    before: Seq<(K, V)>,
    after: Seq<(K, V)>,
    keep: P,
    from: Seq<int>,
)
    requires
        entry_keys(before).no_duplicates(),
        filtered::<K, V, P>(before, after, keep, from, before.len() as int),
    ensures
        entry_keys(after).no_duplicates(),
        forall|key: K::V| #[trigger]
            retained_at::<K, V, P>(entry_map(before), entry_map(after), keep, key),
        entry_keys(after) == entry_keys(before).filter(
            |k: K::V| entry_map(after).dom().contains(k),
        ),
{
    assert(entry_keys(after).no_duplicates()) by {
        assert forall|a: int, b: int|
            0 <= a < after.len() && 0 <= b < after.len() && a != b implies entry_keys(after)[a]
            != entry_keys(after)[b] by {
            let x = from[a];
            let y = from[b];
            assert(x != y) by {
                if a < b {
                    assert(from[a] < from[b]);
                } else {
                    assert(from[b] < from[a]);
                }
            }
            assert(entry_keys(before)[x] != entry_keys(before)[y]);
        }
    }
    assert forall|key: K::V| #[trigger]
        retained_at::<K, V, P>(entry_map(before), entry_map(after), keep, key) by {
        if entry_map(after).dom().contains(key) {
            let j = entry_keys(after).index_of(key);
            lemma_entry_at(after, j);
            lemma_entry_at(before, from[j]);
            assert(answers::<K, P>(keep, before[from[j]].0@, true));
        } else if entry_map(before).dom().contains(key) {
            let x = entry_keys(before).index_of(key);
            lemma_entry_at(before, x);
            assert(!from.contains(x)) by {
                if from.contains(x) {
                    let j = from.index_of(x);
                    assert(after[j] == before[x]);
                    assert(entry_keys(after)[j] == key);
                }
            }
            assert(answers::<K, P>(keep, before[x].0@, false));
        }
    }
    lemma_filter_order(before, after, from, before.len() as int, after.len() as int);
    assert(before.take(before.len() as int) =~= before);
    assert(after.take(after.len() as int) =~= after);
}

proof fn lemma_filter_order<K: MapKey, V>(
    before: Seq<(K, V)>,
    after: Seq<(K, V)>,
    from: Seq<int>,
    n: int,
    m: int,
)
    requires
        entry_keys(before).no_duplicates(),
        0 <= n <= before.len(),
        0 <= m <= after.len(),
        from.len() == after.len(),
        forall|j: int|
            0 <= j < from.len() ==> 0 <= #[trigger] from[j] < before.len() && after[j]
                == before[from[j]],
        forall|a: int, b: int| 0 <= a < b < from.len() ==> #[trigger] from[a] < #[trigger] from[b],
        forall|j: int| 0 <= j < from.len() ==> (#[trigger] from[j] < n <==> j < m),
    ensures
        entry_keys(after.take(m)) == entry_keys(before.take(n)).filter(
            |k: K::V| entry_map(after).dom().contains(k),
        ),
    decreases n,
{
    reveal(Seq::filter);
    let keys = entry_keys(before.take(n));
    if n == 0 {
        if m > 0 {
            assert(from[0] < 0);
        }
        assert(entry_keys(after.take(m)) =~= Seq::<K::V>::empty());
    } else {
        assert(keys.drop_last() =~= entry_keys(before.take(n - 1)));
        let key = before[n - 1].0@;
        assert(keys.last() == key);
        if entry_map(after).dom().contains(key) {
            let j = entry_keys(after).index_of(key);
            assert(entry_keys(before)[from[j]] == entry_keys(before)[n - 1]);
            assert(from[j] == n - 1);
            assert(j < m);
            assert(j == m - 1) by {
                if j < m - 1 {
                    assert(from[j] < from[m - 1]);
                    assert(from[m - 1] < n);
                }
            }
            assert forall|i: int| 0 <= i < from.len() implies (#[trigger] from[i] < n - 1 <==> i < m
                - 1) by {
                if i < m - 1 {
                    assert(from[i] < from[m - 1]);
                }
            }
            lemma_filter_order(before, after, from, n - 1, m - 1);
            assert(entry_keys(after.take(m)) =~= entry_keys(after.take(m - 1)).push(key));
        } else {
            assert forall|i: int| 0 <= i < from.len() implies (#[trigger] from[i] < n - 1 <==> i
                < m) by {
                if from[i] == n - 1 {
                    assert(entry_keys(after)[i] == key);
                    assert(entry_keys(after).contains(key));
                }
            }
            lemma_filter_order(before, after, from, n - 1, m);
        }
    }
}

} // verus!
