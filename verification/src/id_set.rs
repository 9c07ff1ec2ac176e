//! Set of 128-bit source identifiers.

use vstd::prelude::*;

use crate::id_map::IdMap;

verus! {

/// Set of source ids.
pub struct IdSet {
    members: IdMap<()>,
}

impl View for IdSet {
    type V = Set<u128>;

    closed spec fn view(&self) -> Set<u128> {
        self.members@.dom()
    }
}

impl IdSet {
    /// Every member is held once.
    pub closed spec fn wf(self) -> bool {
        self.members.wf()
    }

    /// The empty set.
    pub fn new() -> (r: Self)
        ensures
            r.wf(),
            r@ == Set::<u128>::empty(),
    {
        IdSet { members: IdMap::new() }
    }

    /// Whether `id` is a member.
    pub fn contains(&self, id: u128) -> (r: bool)
        requires
            self.wf(),
        ensures
            r == self@.contains(id),
    {
        self.members.contains(id)
    }

    /// Adds `id`; true where it was not a member before.
    pub fn insert(&mut self, id: u128) -> (r: bool)
        requires
            old(self).wf(),
        ensures
            final(self).wf(),
            final(self)@ == old(self)@.insert(id),
            r == !old(self)@.contains(id),
    {
        let previous = self.members.insert(id, ());
        assert(self@ =~= old(self)@.insert(id));
        previous.is_none()
    }

    /// Removes `id`; true where it was a member before.
    pub fn remove(&mut self, id: u128) -> (r: bool)
        requires
            old(self).wf(),
        ensures
            final(self).wf(),
            final(self)@ == old(self)@.remove(id),
            r == old(self)@.contains(id),
    {
        let previous = self.members.remove(id);
        assert(self@ =~= old(self)@.remove(id));
        previous.is_some()
    }

    /// Removes every member.
    pub fn clear(&mut self)
        ensures
            final(self).wf(),
            final(self)@ == Set::<u128>::empty(),
    {
        self.members.clear();
    }
}

} // verus!
