//! The channel through which a component's properties report that they changed.
use vstd::prelude::*;

verus! {

/// Reports changed properties, by index, to the component they belong to.
/// Every handle made from another with `clone_new` reports to the same
/// component, and each keeps the list of what it reported.
#[derive(Clone)]
pub struct PropertyMutator {
    id: u32,
    reported: Vec<u8>,
}

impl PropertyMutator {
    /// The component this handle reports to.
    pub closed spec fn id(&self) -> u32 {
        self.id
    }

    /// The property indices reported through this handle, oldest first.
    pub closed spec fn reported(&self) -> Seq<u8> {
        self.reported@
    }

    pub fn new(id: u32) -> (r: PropertyMutator)
        ensures
            r.id() == id,
            r.reported() == Seq::<u8>::empty(),
    {
        PropertyMutator { id, reported: Vec::new() }
    }

    /// The component this handle reports to.
    pub fn component_id(&self) -> (r: u32)
        ensures
            r == self.id(),
    {
        self.id
    }

    /// The property indices reported through this handle, oldest first.
    pub fn reported_indices(&self) -> (r: &Vec<u8>)
        ensures
            r@ == self.reported(),
    {
        &self.reported
    }

    /// A new handle reporting to the same component, with nothing reported yet.
    pub fn clone_new(&self) -> (r: PropertyMutator)
        ensures
            r.id() == self.id(),
            r.reported() == Seq::<u8>::empty(),
    {
        PropertyMutator { id: self.id, reported: Vec::new() }
    }

    /// Reports that the property at `property_index` changed.
    pub fn mutate(&mut self, property_index: u8) -> (r: bool)
        ensures
            r,
            final(self).id() == old(self).id(),
            final(self).reported() == old(self).reported().push(property_index),
    {
        self.reported.push(property_index);
        true
    }
}

} // verus!
