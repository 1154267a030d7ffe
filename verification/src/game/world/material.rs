//! Material identifiers and the registry that hands them out.
use vstd::prelude::*;

verus! {

/// Identifier of a registered material; identifier 0 is air, the absence of material.
#[derive(Debug, Clone, Copy, PartialEq, Eq, Structural)]
pub struct MaterialId(usize);

impl View for MaterialId {
    type V = usize;

    closed spec fn view(&self) -> usize {
        self.0
    }
}

impl MaterialId {
    /// Air, as a value of specifications.
    pub closed spec fn air_spec() -> MaterialId {
        MaterialId(0)
    }

    /// Air: no material at all.
    pub fn air() -> (r: MaterialId)
        ensures
            r@ == 0,
            r == MaterialId::air_spec(),
    {
        MaterialId(0)
    }

    /// The numeric identifier.
    pub fn id(&self) -> (r: usize)
        ensures
            r == self@,
    {
        self.0
    }

    /// Two identifiers are the same exactly when their numbers are, and air has number 0.
    pub proof fn lemma_view_injective(a: MaterialId, b: MaterialId)
        ensures
            a == b <==> a@ == b@,
            MaterialId::air_spec()@ == 0,
    {
    }

}

impl Default for MaterialId {
    fn default() -> (r: MaterialId)
        ensures
            r@ == 0,
    {
        MaterialId::air()
    }
}

/// Registry of materials; material `i` of the list has identifier `i + 1`.
#[derive(Debug, Clone)]
pub struct MaterialManager<T> {
    pub materials: Vec<T>,
    pub is_dirty: bool,
}

impl<T> MaterialManager<T> {
    /// An empty registry that has not changed.
    pub fn new() -> (m: MaterialManager<T>)
        ensures
            m.materials@ == Seq::<T>::empty(),
            !m.is_dirty,
    {
        MaterialManager { materials: Vec::new(), is_dirty: false }
    }

    /// Adds a material and returns its identifier, one more than the number of materials
    /// registered before; the registry becomes dirty.
    pub fn register(&mut self, material: T) -> (id: MaterialId)
        requires
            old(self).materials@.len() < usize::MAX,
        ensures
            final(self).materials@ == old(self).materials@.push(material),
            final(self).is_dirty,
            id@ == old(self).materials@.len() + 1,
    {
        self.is_dirty = true;
        let idx = self.materials.len();
        self.materials.push(material);
        MaterialId(idx + 1)
    }

    /// Returns whether the registry changed since the last call, and marks it unchanged.
    pub fn take_dirty(&mut self) -> (was_dirty: bool)
        ensures
            was_dirty == old(self).is_dirty,
            !final(self).is_dirty,
            final(self).materials@ == old(self).materials@,
    {
        let was_dirty = self.is_dirty;
        self.is_dirty = false;
        was_dirty
    }
}

impl<T> Default for MaterialManager<T> {
    fn default() -> (m: MaterialManager<T>)
        ensures
            m.materials@ == Seq::<T>::empty(),
            !m.is_dirty,
    {
        MaterialManager::new()
    }
}

} // verus!
