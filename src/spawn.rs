use vstd::prelude::*;
use crate::handle::Handle;
use crate::physics::{Pose, handle_key};
use crate::prefab::{create_normal_block, fresh_entity, normal_block_bundle, ready};
use crate::world::World;

verus! {

/// Relies on rand::random: a value from the thread's generator, of which
/// nothing is known.
pub assume_specification<T>[ rand::random::<T> ]() -> T
    where
        rand::distributions::Standard: rand::distributions::Distribution<T>,
;

/// Simulated time between two falling blocks, in microseconds.
pub const BLOCK_INTERVAL_MICROS: u64 = 3_000_000;

/// Height, in pixels, at which falling blocks appear.
pub const BLOCK_DROP_Y: i32 = -16;

/// Counts simulated time and says when the next block falls.
pub struct BlockSpawner {
    pub elapsed: u64,
}

impl BlockSpawner {
    pub open spec fn wf(&self) -> bool {
        self.elapsed <= BLOCK_INTERVAL_MICROS
    }

    pub fn new() -> (r: BlockSpawner)
        ensures
            r.wf(),
            r.elapsed == 0,
    {
        BlockSpawner { elapsed: 0 }
    }

    /// Adds a tick of `dt` microseconds; true when the count passes the
    /// interval, which is then taken off the count.
    pub fn tick(&mut self, dt: u64) -> (spawn: bool)
        requires
            old(self).wf(),
            dt <= BLOCK_INTERVAL_MICROS,
        ensures
            final(self).wf(),
            spawn == (old(self).elapsed + dt > BLOCK_INTERVAL_MICROS),
            final(self).elapsed == (if spawn {
                old(self).elapsed + dt - BLOCK_INTERVAL_MICROS
            } else {
                old(self).elapsed + dt
            }),
    {
        self.elapsed = self.elapsed + dt;
        if self.elapsed > BLOCK_INTERVAL_MICROS {
            self.elapsed = self.elapsed - BLOCK_INTERVAL_MICROS;
            true
        } else {
            false
        }
    }
}

/// The x coordinate, in pixels, of the lane that a draw of `r` picks: one
/// of seven 32-pixel lanes from 80 on.
pub open spec fn lane_of(r: u32) -> i32 {
    (80 + (r % 7) * 32) as i32
}

pub fn lane_x(r: u32) -> (x: i32)
    ensures
        x == lane_of(r),
        80 <= x <= 272,
{
    (80 + (r % 7) * 32) as i32
}

/// A lane picked at random.
pub fn random_lane_x() -> (x: i32)
    ensures
        exists|r: u32| x == lane_of(r),
        80 <= x <= 272,
{
    let r: u32 = rand::random::<u32>();
    lane_x(r)
}

/// Buffers a falling block at the top of a random lane. Returns the lane,
/// the block's body and its collider.
pub fn drop_block(world: &mut World) -> (r: (i32, Handle, Handle))
    requires
        ready(*old(world), 2),
    ensures
        final(world).wf(),
        exists|d: u32| r.0 == lane_of(d),
        old(world).physics.is_fresh(r.1),
        old(world).physics.is_fresh(r.2),
        final(world).physics.handles.id == old(world).physics.handles.id + 2,
        final(world).store.pending@ == old(world).store.pending@.push(
            fresh_entity(old(world).store.next_id, normal_block_bundle((r.0, BLOCK_DROP_Y), r.1, r.2)),
        ),
        final(world).store.live == old(world).store.live,
        final(world).store.registered == old(world).store.registered,
        final(world).store.next_id == old(world).store.next_id + 1,
        final(world).physics.bodies@ == old(world).physics.bodies@.insert(
            handle_key(r.1),
            Pose { x: (r.0 * 1000) as i32, y: (BLOCK_DROP_Y * 1000) as i32, r: 0 },
        ),
        final(world).physics.colliders@ == old(world).physics.colliders@.insert(handle_key(r.2)),
{
    let x = random_lane_x();
    let (body, collider) = create_normal_block((x, BLOCK_DROP_Y), world);
    (x, body, collider)
}

} // verus!
