use vstd::prelude::*;

verus! {

/// Hands out handles with fresh ids, counting up from zero.
pub struct HandleGenerator {
    pub id: u32,
}

impl HandleGenerator {
    pub fn new() -> (r: HandleGenerator)
        ensures
            r.id == 0,
    {
        HandleGenerator { id: 0 }
    }

    /// A handle with the next unused id and sub-id zero.
    pub fn gen(&mut self) -> (r: Handle)
        requires
            old(self).id < u32::MAX,
        ensures
            r.id == old(self).id,
            r.subid == 0,
            final(self).id == old(self).id + 1,
    {
        self.id = self.id + 1;
        Handle { id: self.id - 1, subid: 0 }
    }
}

/// A stable reference to a physics body or collider.
#[derive(Debug, Copy, Clone, PartialEq, Eq, Structural, PartialOrd, Ord, Hash)]
pub struct Handle {
    pub id: u32,
    pub subid: u32,
}

impl Handle {
    /// The handle with the same id and the following sub-id.
    pub fn gen_next(&self) -> (r: Handle)
        requires
            self.subid < u32::MAX,
        ensures
            r.id == self.id,
            r.subid == self.subid + 1,
    {
        Handle { id: self.id, subid: self.subid + 1 }
    }
}

} // verus!
