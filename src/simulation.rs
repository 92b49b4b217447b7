use vstd::prelude::*;
use crate::components::all_kinds;
use crate::handle::Handle;
use crate::input::{InputEvent, TickInput, poll_events, read_events};
use crate::physics::{Pose, handle_key};
use crate::prefab::{WallPlacement, create_level, fresh_entity, level_walls, normal_block_bundle};
use crate::snapshot::{Snapshot, build_snapshot, bodies_of, rghs_of, uvs_of, whs_of, xys_of};
use crate::spawn::{BLOCK_DROP_Y, BLOCK_INTERVAL_MICROS, BlockSpawner, drop_block, lane_of};
use crate::store::{Entity, casualties, key_matches, matching, survivors};
use crate::systems::{
    apply_cursor_damage_all, apply_lmb_down_uv, apply_lmb_up_uv, cursor_in_range, cursor_point,
    cursor_target, damage_query, damage_targets, damaged, destroy_points, emit_query, kill_query,
    kill_upon_0_hp, killed, snap_cursor_sprites, snap_query, sync_query, sync_sprite_to_physics,
    synced, with_down_uv, with_up_uv, with_xy, down_uv_query, up_uv_query,
};
use crate::world::{World, key_set};

verus! {

/// Each entity that the press rule reaches swaps to its press texture.
pub open spec fn press_rule(s: Seq<Entity>) -> Seq<Entity> {
    Seq::new(
        s.len(),
        |j: int|
            if key_matches(s[j].key, down_uv_query(), 0) {
                with_down_uv(s[j])
            } else {
                s[j]
            },
    )
}

/// Each entity that the release rule reaches swaps to its release texture.
pub open spec fn release_rule(s: Seq<Entity>) -> Seq<Entity> {
    Seq::new(
        s.len(),
        |j: int|
            if key_matches(s[j].key, up_uv_query(), 0) {
                with_up_uv(s[j])
            } else {
                s[j]
            },
    )
}

/// Each entity that takes cursor damage loses `damage[j]` hit points.
pub open spec fn damage_rule(s: Seq<Entity>, damage: Seq<u32>) -> Seq<Entity> {
    Seq::new(
        s.len(),
        |j: int|
            if key_matches(s[j].key, damage_query(), 0) {
                damaged(s[j], damage[j])
            } else {
                s[j]
            },
    )
}

/// Each grid-snapping sprite moves to `target`.
pub open spec fn snap_rule(s: Seq<Entity>, target: (i32, i32)) -> Seq<Entity> {
    Seq::new(
        s.len(),
        |j: int|
            if key_matches(s[j].key, snap_query(), 0) {
                with_xy(s[j], target)
            } else {
                s[j]
            },
    )
}

/// Each entity that dies at zero hit points and has none left is flagged.
pub open spec fn kill_rule(s: Seq<Entity>) -> Seq<Entity> {
    Seq::new(
        s.len(),
        |j: int|
            if key_matches(s[j].key, kill_query(), 0) {
                killed(s[j])
            } else {
                s[j]
            },
    )
}

/// Each sprite that follows a body takes the body's pose from `bodies`.
pub open spec fn sync_rule(s: Seq<Entity>, bodies: Map<u64, Pose>) -> Seq<Entity> {
    Seq::new(
        s.len(),
        |j: int|
            if key_matches(s[j].key, sync_query(), 0) {
                synced(s[j], bodies)
            } else {
                s[j]
            },
    )
}

/// Some entity emits destroy points.
pub open spec fn has_emitter(s: Seq<Entity>) -> bool {
    matching(s, emit_query(), 0, s.len() as int).len() > 0
}

/// The committed entities after the rules that follow the physics step, in
/// their order: the press texture, cursor damage when some entity emits
/// destroy points, the release texture, grid snapping, and kill flags.
pub open spec fn tick_rules(s: Seq<Entity>, input: TickInput, damage: Seq<u32>, target: (
    i32,
    i32,
)) -> Seq<Entity> {
    let s1 = if input.lmb_pressed {
        press_rule(s)
    } else {
        s
    };
    let s2 = if input.lmb_pressed && has_emitter(s1) {
        damage_rule(s1, damage)
    } else {
        s1
    };
    let s3 = if input.lmb_released {
        release_rule(s2)
    } else {
        s2
    };
    kill_rule(snap_rule(s3, target))
}

/// Every cursor move in `s` stays within what the cursor rules accept.
pub open spec fn events_in_range(s: Seq<InputEvent>, camh: i32) -> bool {
    forall|k: int|
        0 <= k < s.len() ==> (#[trigger] s[k] matches InputEvent::CursorMoved(x, y)
            ==> cursor_in_range((x, y), camh))
}

/// Room for one more falling block.
pub open spec fn has_room(w: World) -> bool {
    w.physics.handles.id + 2 < u32::MAX && w.store.next_id < u64::MAX
}

proof fn lemma_cursor_stays_in_range(cursor: (i32, i32), s: Seq<InputEvent>, camh: i32)
    requires
        cursor_in_range(cursor, camh),
        events_in_range(s, camh),
    ensures
        cursor_in_range(read_events(cursor, s).0, camh),
    decreases s.len(),
{
    if s.len() > 0 {
        let p = s.drop_last();
        assert forall|k: int| 0 <= k < p.len() implies (#[trigger] p[k] matches InputEvent::CursorMoved(
            x,
            y,
        ) ==> cursor_in_range((x, y), camh)) by {
            assert(p[k] == s[k]);
        }
        lemma_cursor_stays_in_range(cursor, p, camh);
        assert(s.last() == s[s.len() - 1]);
    }
}

/// What the start of a tick did: the input it read, the block it dropped,
/// if any, with its lane, body and collider, and the entities that left at
/// the commit that follows a drop.
pub struct TickStart {
    pub input: TickInput,
    pub dropped: Option<(i32, Handle, Handle)>,
    pub removed: Vec<Entity>,
}

/// The simulation stage's state: the world, the block timer, the cursor in
/// window pixels and the play-field height in pixels.
pub struct Simulation {
    pub world: World,
    pub spawner: BlockSpawner,
    pub cursor: (i32, i32),
    pub camh: i32,
}

impl Simulation {
    pub open spec fn wf(&self) -> bool {
        &&& self.world.wf()
        &&& self.world.store.registered == all_kinds()
        &&& self.spawner.wf()
        &&& cursor_in_range(self.cursor, self.camh)
    }

    /// A simulation of a play field `camh` pixels high with its level
    /// committed. Returns it with the level's walls, whose colliders the
    /// physics side fixes to the ground.
    pub fn new(camh: i32) -> (r: (Simulation, Vec<WallPlacement>))
        requires
            48 <= camh <= 100_000,
        ensures
            r.0.wf(),
            r.0.camh == camh,
            r.0.cursor == (0i32, 0i32),
            r.0.spawner.elapsed == 0,
            r.0.world.store.live@.len() == 10,
            r.0.world.store.pending@.len() == 0,
            r.1@.len() == 6,
            forall|k: int|
                0 <= k < 6 ==> (#[trigger] r.1@[k].x as int, r.1@[k].y as int, r.1@[k].w as int,
                r.1@[k].h as int) == level_walls(camh)[k],
            forall|k: int|
                0 <= k < 6 ==> r.0.world.physics.has_collider(#[trigger] r.1@[k].collider),
    {
        let mut world = World::new();
        let walls = create_level(&mut world, camh);
        let ghost before = world;
        world.commit();
        proof {
            assert(survivors(before.store.live@) =~= Seq::<Entity>::empty());
            assert(casualties(before.store.live@) =~= Seq::<Entity>::empty());
            assert(key_set(Seq::<Entity>::empty(), false) =~= Set::<u64>::empty());
            assert(world.physics.colliders@ =~= before.physics.colliders@);
        }
        (Simulation { world, spawner: BlockSpawner::new(), cursor: (0, 0), camh }, walls)
    }

    /// The start of a tick of `dt` microseconds: reads the drained events
    /// and, unless the window asked to close, counts `dt` toward the next
    /// falling block. When one is due and there is room for it, drops it
    /// and commits.
    pub fn begin_tick(&mut self, events: &Vec<InputEvent>, dt: u64) -> (r: TickStart)
        requires
            old(self).wf(),
            dt <= BLOCK_INTERVAL_MICROS,
            events_in_range(events@, old(self).camh),
        ensures
            final(self).wf(),
            final(self).camh == old(self).camh,
            (final(self).cursor, r.input) == read_events(old(self).cursor, events@),
            r.input.close ==> final(self).world == old(self).world && final(self).spawner
                == old(self).spawner && r.dropped.is_none() && r.removed@.len() == 0,
            !r.input.close ==> final(self).spawner.elapsed == (if old(self).spawner.elapsed + dt
                > BLOCK_INTERVAL_MICROS {
                old(self).spawner.elapsed + dt - BLOCK_INTERVAL_MICROS
            } else {
                old(self).spawner.elapsed + dt
            }),
            !r.input.close ==> (r.dropped.is_some() <==> (old(self).spawner.elapsed + dt
                > BLOCK_INTERVAL_MICROS && has_room(old(self).world))),
            r.dropped.is_none() && !r.input.close ==> final(self).world == old(self).world
                && r.removed@.len() == 0,
            r.dropped matches Some(d) ==> {
                let block = fresh_entity(
                    old(self).world.store.next_id,
                    normal_block_bundle((d.0, BLOCK_DROP_Y), d.1, d.2),
                );
                &&& exists|v: u32| d.0 == lane_of(v)
                &&& final(self).world.store.live@ == survivors(old(self).world.store.live@)
                    + old(self).world.store.pending@.push(block)
                &&& r.removed@ == casualties(old(self).world.store.live@)
                &&& final(self).world.physics.bodies@ == old(self).world.physics.bodies@.insert(
                    handle_key(d.1),
                    Pose { x: (d.0 * 1000) as i32, y: (BLOCK_DROP_Y * 1000) as i32, r: 0 },
                ).remove_keys(key_set(r.removed@, true))
                &&& final(self).world.physics.colliders@ == old(
                    self,
                ).world.physics.colliders@.insert(handle_key(d.2)).difference(
                    key_set(r.removed@, false),
                )
            },
    {
        let input = poll_events(&mut self.cursor, events);
        proof {
            lemma_cursor_stays_in_range(old(self).cursor, events@, self.camh);
        }
        if input.close {
            return TickStart { input, dropped: None, removed: Vec::new() };
        }
        let due = self.spawner.tick(dt);
        if due && self.world.physics.handles.id < u32::MAX - 2 && self.world.store.next_id
            < u64::MAX {
            let d = drop_block(&mut self.world);
            let removed = self.world.commit();
            TickStart { input, dropped: Some(d), removed }
        } else {
            TickStart { input, dropped: None, removed: Vec::new() }
        }
    }

    /// The destroy points at the cursor, one per emitter, and the positions
    /// of the entities that take cursor damage. The press rule changes no
    /// key, so both are the same before and after it.
    pub fn damage_probe(&self) -> (r: (Vec<(i32, i32)>, Vec<usize>))
        requires
            self.wf(),
        ensures
            r.0@.len() == matching(
                self.world.store.live@,
                emit_query(),
                0,
                self.world.store.live@.len() as int,
            ).len(),
            forall|k: int| 0 <= k < r.0@.len() ==> #[trigger] r.0@[k] == cursor_point(self.cursor),
            r.1@ == matching(self.world.store.live@, damage_query(), 0, self.world.store.live@.len() as int),
            forall|k: int| 0 <= k < r.1@.len() ==> #[trigger] r.1@[k] < self.world.store.live@.len(),
    {
        (destroy_points(&self.world, self.cursor), damage_targets(&self.world))
    }

    /// The rest of a tick, after the physics step: the rules of
    /// `tick_rules` in order, then the commit. `damage[j]` is the number of
    /// destroy points inside the collider of the committed entity at `j`.
    /// Returns the entities that left.
    pub fn finish_tick(&mut self, input: TickInput, damage: &Vec<u32>) -> (removed: Vec<Entity>)
        requires
            old(self).wf(),
            damage@.len() == old(self).world.store.live@.len(),
        ensures
            final(self).wf(),
            final(self).cursor == old(self).cursor,
            final(self).camh == old(self).camh,
            final(self).spawner == old(self).spawner,
            final(self).world.store.live@ == survivors(
                tick_rules(
                    old(self).world.store.live@,
                    input,
                    damage@,
                    cursor_target(old(self).cursor, old(self).camh),
                ),
            ) + old(self).world.store.pending@,
            final(self).world.store.pending@.len() == 0,
            removed@ == casualties(
                tick_rules(
                    old(self).world.store.live@,
                    input,
                    damage@,
                    cursor_target(old(self).cursor, old(self).camh),
                ),
            ),
            final(self).world.physics.bodies@ == old(self).world.physics.bodies@.remove_keys(
                key_set(removed@, true),
            ),
            final(self).world.physics.colliders@ == old(self).world.physics.colliders@.difference(
                key_set(removed@, false),
            ),
    {
        let ghost s0 = self.world.store.live@;
        let ghost target = cursor_target(self.cursor, self.camh);
        if input.lmb_pressed {
            apply_lmb_down_uv(&mut self.world);
            assert(self.world.store.live@ =~= press_rule(s0));
            let points = destroy_points(&self.world, self.cursor);
            if points.len() > 0 {
                apply_cursor_damage_all(&mut self.world, damage);
                assert(self.world.store.live@ =~= damage_rule(press_rule(s0), damage@));
            }
        }
        let ghost s2 = self.world.store.live@;
        if input.lmb_released {
            apply_lmb_up_uv(&mut self.world);
            assert(self.world.store.live@ =~= release_rule(s2));
        }
        let ghost s3 = self.world.store.live@;
        assert(s3 == (if input.lmb_released {
            release_rule(s2)
        } else {
            s2
        }));
        snap_cursor_sprites(&mut self.world, self.cursor, self.camh);
        assert(self.world.store.live@ =~= snap_rule(s3, target));
        kill_upon_0_hp(&mut self.world);
        assert(self.world.store.live@ =~= kill_rule(snap_rule(s3, target)));
        assert(self.world.store.live@ == tick_rules(s0, input, damage@, target));
        self.world.commit()
    }

    /// Moves the sprites that follow bodies to their bodies' poses and
    /// copies out what the renderer draws.
    pub fn end_frame(&mut self) -> (r: Snapshot)
        requires
            old(self).wf(),
        ensures
            final(self).wf(),
            final(self).cursor == old(self).cursor,
            final(self).camh == old(self).camh,
            final(self).spawner == old(self).spawner,
            final(self).world.physics == old(self).world.physics,
            final(self).world.store.pending == old(self).world.store.pending,
            final(self).world.store.live@ == sync_rule(
                old(self).world.store.live@,
                old(self).world.physics.bodies@,
            ),
            r.sprite_xys@ == xys_of(final(self).world.store.live@),
            r.sprite_uvs@ == uvs_of(final(self).world.store.live@),
            r.sprite_whs@ == whs_of(final(self).world.store.live@),
            r.sprite_rghs@ == rghs_of(final(self).world.store.live@),
            r.rigid_bodies@ == bodies_of(final(self).world.store.live@, final(self).world.physics.bodies@),
    {
        sync_sprite_to_physics(&mut self.world);
        assert(self.world.store.live@ =~= sync_rule(
            old(self).world.store.live@,
            old(self).world.physics.bodies@,
        ));
        build_snapshot(&self.world)
    }
}

} // verus!
