use vstd::prelude::*;
use std::collections::HashMap;
use std::collections::HashSet;
use crate::handle::{Handle, HandleGenerator};

verus! {

broadcast use vstd::std_specs::hash::group_hash_axioms;

/// Where a physics body is: position in thousandths of a pixel, rotation in
/// millionths of a radian.
#[derive(Debug, Copy, Clone, PartialEq, Eq, Structural)]
pub struct Pose {
    pub x: i32,
    pub y: i32,
    pub r: i32,
}

/// The map key of a handle.
pub open spec fn handle_key(h: Handle) -> u64 {
    (h.id as int * 0x1_0000_0000 + h.subid as int) as u64
}

fn key_of_handle(h: &Handle) -> (r: u64)
    ensures
        r == handle_key(*h),
{
    (h.id as u64) * 0x1_0000_0000 + (h.subid as u64)
}

/// The live handles of the physics engine's bodies and colliders, with the
/// last known pose of each body. A handle is valid from the call that
/// creates it until the call that releases it; lookups of any other handle
/// fail.
pub struct PhysicsRegistry {
    pub handles: HandleGenerator,
    pub bodies: HashMap<u64, Pose>,
    pub colliders: HashSet<u64>,
}

impl PhysicsRegistry {
    pub open spec fn has_body(&self, h: Handle) -> bool {
        self.bodies@.contains_key(handle_key(h))
    }

    pub open spec fn has_collider(&self, h: Handle) -> bool {
        self.colliders@.contains(handle_key(h))
    }

    /// Every key in use is below those of handles not yet handed out.
    pub open spec fn wf(&self) -> bool {
        &&& forall|k: u64|
            #[trigger] self.bodies@.contains_key(k) ==> k < self.handles.id as int * 0x1_0000_0000
        &&& forall|k: u64|
            #[trigger] self.colliders@.contains(k) ==> k < self.handles.id as int * 0x1_0000_0000
    }

    /// A handle that this registry has not handed out yet.
    pub open spec fn is_fresh(&self, h: Handle) -> bool {
        h.id >= self.handles.id
    }

    pub fn new() -> (r: PhysicsRegistry)
        ensures
            r.wf(),
            r.bodies@ == Map::<u64, Pose>::empty(),
            r.colliders@ == Set::<u64>::empty(),
            r.handles.id == 0,
    {
        PhysicsRegistry {
            handles: HandleGenerator::new(),
            bodies: HashMap::new(),
            colliders: HashSet::new(),
        }
    }

    /// Registers a new body at `pose` and returns its handle.
    pub fn add_body(&mut self, pose: Pose) -> (h: Handle)
        requires
            old(self).wf(),
            old(self).handles.id < u32::MAX,
        ensures
            final(self).wf(),
            old(self).is_fresh(h),
            !final(self).is_fresh(h),
            final(self).handles.id == old(self).handles.id + 1,
            final(self).bodies@ == old(self).bodies@.insert(handle_key(h), pose),
            final(self).colliders@ == old(self).colliders@,
    {
        let h = self.handles.gen();
        let k = key_of_handle(&h);
        self.bodies.insert(k, pose);
        h
    }

    /// Registers a new collider and returns its handle.
    pub fn add_collider(&mut self) -> (h: Handle)
        requires
            old(self).wf(),
            old(self).handles.id < u32::MAX,
        ensures
            final(self).wf(),
            old(self).is_fresh(h),
            !final(self).is_fresh(h),
            final(self).handles.id == old(self).handles.id + 1,
            final(self).colliders@ == old(self).colliders@.insert(handle_key(h)),
            final(self).bodies@ == old(self).bodies@,
    {
        let h = self.handles.gen();
        let k = key_of_handle(&h);
        self.colliders.insert(k);
        h
    }

    /// The last known pose of body `h`, or `None` when `h` is not a live body.
    pub fn body_pose(&self, h: Handle) -> (r: Option<Pose>)
        ensures
            r == (if self.has_body(h) {
                Some(self.bodies@[handle_key(h)])
            } else {
                None
            }),
    {
        let k = key_of_handle(&h);
        match self.bodies.get(&k) {
            Some(p) => Some(*p),
            None => None,
        }
    }

    /// Records the pose of body `h`; false, with nothing changed, when `h` is
    /// not a live body.
    pub fn set_body_pose(&mut self, h: Handle, pose: Pose) -> (r: bool)
        requires
            old(self).wf(),
        ensures
            final(self).wf(),
            r == old(self).has_body(h),
            final(self).bodies@ == (if r {
                old(self).bodies@.insert(handle_key(h), pose)
            } else {
                old(self).bodies@
            }),
            final(self).colliders@ == old(self).colliders@,
            final(self).handles == old(self).handles,
    {
        let k = key_of_handle(&h);
        if self.bodies.contains_key(&k) {
            self.bodies.insert(k, pose);
            true
        } else {
            false
        }
    }

    /// Whether `h` is a live collider.
    pub fn collider_exists(&self, h: Handle) -> (r: bool)
        ensures
            r == self.has_collider(h),
    {
        let k = key_of_handle(&h);
        self.colliders.contains(&k)
    }

    /// Releases body `h`; later lookups of it fail.
    pub fn release_body(&mut self, h: Handle)
        requires
            old(self).wf(),
        ensures
            final(self).wf(),
            final(self).bodies@ == old(self).bodies@.remove(handle_key(h)),
            final(self).colliders@ == old(self).colliders@,
            final(self).handles == old(self).handles,
    {
        let k = key_of_handle(&h);
        self.bodies.remove(&k);
    }

    /// Releases collider `h`; later lookups of it fail.
    pub fn release_collider(&mut self, h: Handle)
        requires
            old(self).wf(),
        ensures
            final(self).wf(),
            final(self).colliders@ == old(self).colliders@.remove(handle_key(h)),
            final(self).bodies@ == old(self).bodies@,
            final(self).handles == old(self).handles,
    {
        let k = key_of_handle(&h);
        self.colliders.remove(&k);
    }
}

} // verus!
