use vstd::prelude::*;
use crate::components::{
    Bundle, CursorEmitDestroyEventOnLMBDown, CursorSnapSpriteToGrid, HP, KillUpon0HP, PhysicsBody,
    PhysicsCollider, SetUVOnLMBDown, SetUVOnLMBUp, SpriteR, SpriteUV, SpriteWH, SpriteXY,
    SyncSpriteToPhysics, TakeCursorDamage, all_kinds, key_of, lemma_key_within,
};
use crate::handle::Handle;
use crate::physics::{Pose, handle_key};
use crate::store::Entity;
use crate::world::World;

verus! {

/// Thousandths of a pixel in a pixel.
pub const SUBPIXELS: i32 = 1000;

/// Coordinates, in pixels, that every prefab accepts.
pub open spec fn in_field(v: i32) -> bool {
    -2_000_000 <= v <= 2_000_000
}

/// Where the cursor sprite waits before the first cursor move, in pixels.
pub const CURSOR_PARK: i32 = -99_999;

pub open spec fn sprite_bundle(xy: (i32, i32), uv: (i32, i32), wh: (i32, i32)) -> Bundle {
    Bundle {
        sprite_xy: Some(SpriteXY((xy.0 * 1000) as i32, (xy.1 * 1000) as i32)),
        sprite_uv: Some(SpriteUV(uv.0, uv.1)),
        sprite_wh: Some(SpriteWH(wh.0, wh.1)),
        sprite_r: Some(SpriteR(0, 0, 0)),
        ..Bundle::none()
    }
}

pub open spec fn wall_bundle(collider: Handle) -> Bundle {
    Bundle { physics_collider: Some(PhysicsCollider(collider)), ..Bundle::none() }
}

pub open spec fn normal_block_bundle(xy: (i32, i32), body: Handle, collider: Handle) -> Bundle {
    Bundle {
        sprite_xy: Some(SpriteXY((xy.0 * 1000) as i32, (xy.1 * 1000) as i32)),
        sprite_uv: Some(SpriteUV(352, 144)),
        sprite_wh: Some(SpriteWH(32, 32)),
        sprite_r: Some(SpriteR(0, -16i32, -16i32)),
        physics_body: Some(PhysicsBody(body)),
        physics_collider: Some(PhysicsCollider(collider)),
        sync_sprite_to_physics: Some(SyncSpriteToPhysics),
        hp: Some(HP(1)),
        take_cursor_damage: Some(TakeCursorDamage),
        kill_upon_0_hp: Some(KillUpon0HP),
        ..Bundle::none()
    }
}

pub open spec fn particle_bundle(xy: (i32, i32), body: Handle) -> Bundle {
    Bundle {
        sprite_xy: Some(SpriteXY((xy.0 * 1000) as i32, (xy.1 * 1000) as i32)),
        sprite_uv: Some(SpriteUV(352, 144)),
        sprite_wh: Some(SpriteWH(16, 16)),
        sprite_r: Some(SpriteR(0, -8i32, -8i32)),
        physics_body: Some(PhysicsBody(body)),
        sync_sprite_to_physics: Some(SyncSpriteToPhysics),
        ..Bundle::none()
    }
}

pub open spec fn cursor_bundle() -> Bundle {
    Bundle {
        sprite_xy: Some(SpriteXY(-99_999_000i32, -99_999_000i32)),
        sprite_uv: Some(SpriteUV(576, 208)),
        sprite_wh: Some(SpriteWH(32, 32)),
        sprite_r: Some(SpriteR(0, 0, 0)),
        cursor_snap_sprite_to_grid: Some(CursorSnapSpriteToGrid),
        set_uv_on_lmb_up: Some(SetUVOnLMBUp(576, 208)),
        set_uv_on_lmb_down: Some(SetUVOnLMBDown(608, 208)),
        cursor_emit_destroy_event_on_lmb_down: Some(CursorEmitDestroyEventOnLMBDown),
        ..Bundle::none()
    }
}

/// The entity a prefab buffers, given the id it gets.
pub open spec fn fresh_entity(id: u64, parts: Bundle) -> Entity {
    Entity { id, key: key_of(parts), doomed: false, parts }
}

/// What every prefab asks of the world it adds to.
pub open spec fn ready(w: World, handles: nat) -> bool {
    &&& w.wf()
    &&& w.store.registered == all_kinds()
    &&& w.store.next_id < u64::MAX
    &&& w.physics.handles.id + handles < u32::MAX
}

/// Buffers a static decoration: position, texture corner and size only.
pub fn create_sprite(xy: (i32, i32), uv: (i32, i32), wh: (i32, i32), world: &mut World) -> (id: u64)
    requires
        ready(*old(world), 0),
        in_field(xy.0),
        in_field(xy.1),
    ensures
        final(world).wf(),
        id == old(world).store.next_id,
        final(world).store.pending@ == old(world).store.pending@.push(
            fresh_entity(id, sprite_bundle(xy, uv, wh)),
        ),
        final(world).store.live == old(world).store.live,
        final(world).store.registered == old(world).store.registered,
        final(world).store.next_id == id + 1,
        final(world).physics == old(world).physics,
{
    let parts = Bundle {
        sprite_xy: Some(SpriteXY(xy.0 * SUBPIXELS, xy.1 * SUBPIXELS)),
        sprite_uv: Some(SpriteUV(uv.0, uv.1)),
        sprite_wh: Some(SpriteWH(wh.0, wh.1)),
        sprite_r: Some(SpriteR(0, 0, 0)),
        ..Bundle::empty()
    };
    proof {
        lemma_key_within(parts);
    }
    world.spawn(parts)
}

/// Buffers a solid region: a new collider and nothing else. The physics
/// side attaches it to the immovable ground body. Returns the collider.
pub fn create_wall(world: &mut World) -> (collider: Handle)
    requires
        ready(*old(world), 1),
    ensures
        final(world).wf(),
        old(world).physics.is_fresh(collider),
        final(world).store.pending@ == old(world).store.pending@.push(
            fresh_entity(old(world).store.next_id, wall_bundle(collider)),
        ),
        final(world).store.live == old(world).store.live,
        final(world).store.registered == old(world).store.registered,
        final(world).store.next_id == old(world).store.next_id + 1,
        final(world).physics.handles.id == old(world).physics.handles.id + 1,
        final(world).physics.bodies@ == old(world).physics.bodies@,
        final(world).physics.colliders@ == old(world).physics.colliders@.insert(
            handle_key(collider),
        ),
{
    let collider = world.add_collider();
    let parts = Bundle { physics_collider: Some(PhysicsCollider(collider)), ..Bundle::empty() };
    proof {
        lemma_key_within(parts);
    }
    world.spawn(parts);
    collider
}

/// Buffers a falling block at `xy`: a body and a collider of its own, a
/// sprite that follows the body, one hit point, cursor damage and removal
/// at zero hit points. Returns the body and the collider.
pub fn create_normal_block(xy: (i32, i32), world: &mut World) -> (r: (Handle, Handle))
    requires
        ready(*old(world), 2),
        in_field(xy.0),
        in_field(xy.1),
    ensures
        final(world).wf(),
        old(world).physics.is_fresh(r.0),
        old(world).physics.is_fresh(r.1),
        r.0 != r.1,
        final(world).physics.handles.id == old(world).physics.handles.id + 2,
        final(world).store.pending@ == old(world).store.pending@.push(
            fresh_entity(old(world).store.next_id, normal_block_bundle(xy, r.0, r.1)),
        ),
        final(world).store.live == old(world).store.live,
        final(world).store.registered == old(world).store.registered,
        final(world).store.next_id == old(world).store.next_id + 1,
        final(world).physics.bodies@ == old(world).physics.bodies@.insert(
            handle_key(r.0),
            Pose { x: (xy.0 * 1000) as i32, y: (xy.1 * 1000) as i32, r: 0 },
        ),
        final(world).physics.colliders@ == old(world).physics.colliders@.insert(handle_key(r.1)),
{
    let x = xy.0 * SUBPIXELS;
    let y = xy.1 * SUBPIXELS;
    let body = world.add_body(Pose { x, y, r: 0 });
    let collider = world.add_collider();
    let parts = Bundle {
        sprite_xy: Some(SpriteXY(x, y)),
        sprite_uv: Some(SpriteUV(352, 144)),
        sprite_wh: Some(SpriteWH(32, 32)),
        sprite_r: Some(SpriteR(0, -16, -16)),
        physics_body: Some(PhysicsBody(body)),
        physics_collider: Some(PhysicsCollider(collider)),
        sync_sprite_to_physics: Some(SyncSpriteToPhysics),
        hp: Some(HP(1)),
        take_cursor_damage: Some(TakeCursorDamage),
        kill_upon_0_hp: Some(KillUpon0HP),
        ..Bundle::empty()
    };
    proof {
        lemma_key_within(parts);
    }
    world.spawn(parts);
    (body, collider)
}

/// Buffers a piece of debris at `xy`: a body of its own and a sprite that
/// follows it; no collider, no hit points. Returns the body.
pub fn create_normal_block_particles(xy: (i32, i32), world: &mut World) -> (body: Handle)
    requires
        ready(*old(world), 1),
        in_field(xy.0),
        in_field(xy.1),
    ensures
        final(world).wf(),
        old(world).physics.is_fresh(body),
        final(world).physics.handles.id == old(world).physics.handles.id + 1,
        final(world).store.pending@ == old(world).store.pending@.push(
            fresh_entity(old(world).store.next_id, particle_bundle(xy, body)),
        ),
        final(world).store.live == old(world).store.live,
        final(world).store.registered == old(world).store.registered,
        final(world).store.next_id == old(world).store.next_id + 1,
        final(world).physics.bodies@ == old(world).physics.bodies@.insert(
            handle_key(body),
            Pose { x: (xy.0 * 1000) as i32, y: (xy.1 * 1000) as i32, r: 0 },
        ),
        final(world).physics.colliders@ == old(world).physics.colliders@,
{
    let x = xy.0 * SUBPIXELS;
    let y = xy.1 * SUBPIXELS;
    let body = world.add_body(Pose { x, y, r: 0 });
    let parts = Bundle {
        sprite_xy: Some(SpriteXY(x, y)),
        sprite_uv: Some(SpriteUV(352, 144)),
        sprite_wh: Some(SpriteWH(16, 16)),
        sprite_r: Some(SpriteR(0, -8, -8)),
        physics_body: Some(PhysicsBody(body)),
        sync_sprite_to_physics: Some(SyncSpriteToPhysics),
        ..Bundle::empty()
    };
    proof {
        lemma_key_within(parts);
    }
    world.spawn(parts);
    body
}

/// Buffers the cursor: a sprite driven by input alone, parked off screen,
/// that swaps its texture with the left button and emits destroy points.
pub fn create_cursor(world: &mut World) -> (id: u64)
    requires
        ready(*old(world), 0),
    ensures
        final(world).wf(),
        id == old(world).store.next_id,
        final(world).store.pending@ == old(world).store.pending@.push(
            fresh_entity(id, cursor_bundle()),
        ),
        final(world).store.live == old(world).store.live,
        final(world).store.registered == old(world).store.registered,
        final(world).store.next_id == id + 1,
        final(world).physics == old(world).physics,
{
    let parts = Bundle {
        sprite_xy: Some(SpriteXY(CURSOR_PARK * SUBPIXELS, CURSOR_PARK * SUBPIXELS)),
        sprite_uv: Some(SpriteUV(576, 208)),
        sprite_wh: Some(SpriteWH(32, 32)),
        sprite_r: Some(SpriteR(0, 0, 0)),
        cursor_snap_sprite_to_grid: Some(CursorSnapSpriteToGrid),
        set_uv_on_lmb_up: Some(SetUVOnLMBUp(576, 208)),
        set_uv_on_lmb_down: Some(SetUVOnLMBDown(576 + 32, 208)),
        cursor_emit_destroy_event_on_lmb_down: Some(CursorEmitDestroyEventOnLMBDown),
        ..Bundle::empty()
    };
    proof {
        lemma_key_within(parts);
    }
    world.spawn(parts)
}

/// A wall of the level: its collider, and its box as a top left corner and
/// a size in pixels.
#[derive(Debug, Copy, Clone, PartialEq, Eq, Structural)]
pub struct WallPlacement {
    pub collider: Handle,
    pub x: i32,
    pub y: i32,
    pub w: i32,
    pub h: i32,
}

/// The boxes of the level's walls for a play field `camh` pixels high: a
/// floor, a step at its left end, and two pairs of side walls above.
pub open spec fn level_walls(camh: i32) -> Seq<(int, int, int, int)> {
    seq![
        (64, camh - 32, 288, 32),
        (0, camh - 80, 64, 48),
        (0, camh - 128, 64, 48),
        (288, camh - 128, 64, 48),
        (0, camh - 176, 64, 48),
        (288, camh - 176, 64, 48),
    ]
}

fn place_wall(world: &mut World, x: i32, y: i32, w: i32, h: i32, walls: &mut Vec<WallPlacement>)
    requires
        ready(*old(world), 1),
        old(world).store.registered == all_kinds(),
    ensures
        final(world).wf(),
        final(world).store.registered == old(world).store.registered,
        final(world).store.next_id == old(world).store.next_id + 1,
        final(world).store.live == old(world).store.live,
        final(world).store.pending@.len() == old(world).store.pending@.len() + 1,
        final(world).physics.handles.id == old(world).physics.handles.id + 1,
        final(walls)@.len() == old(walls)@.len() + 1,
        final(walls)@.drop_last() == old(walls)@,
        final(walls)@.last().x == x && final(walls)@.last().y == y,
        final(walls)@.last().w == w && final(walls)@.last().h == h,
        final(world).physics.has_collider(final(walls)@.last().collider),
        forall|k: int|
            0 <= k < old(walls)@.len() && old(world).physics.has_collider(#[trigger] old(walls)@[k].collider)
                ==> final(world).physics.has_collider(old(walls)@[k].collider),
{
    let collider = create_wall(world);
    walls.push(WallPlacement { collider, x, y, w, h });
    assert(walls@.drop_last() =~= old(walls)@);
}

/// Buffers the level for a play field `camh` pixels high: its walls, the
/// backdrop sprites and the cursor. Returns the walls, whose colliders the
/// physics side fixes to the ground.
pub fn create_level(world: &mut World, camh: i32) -> (walls: Vec<WallPlacement>)
    requires
        ready(*old(world), 6),
        old(world).store.next_id < u64::MAX - 16,
        0 <= camh <= 1_000_000,
    ensures
        final(world).wf(),
        final(world).store.registered == old(world).store.registered,
        final(world).store.live == old(world).store.live,
        final(world).store.next_id == old(world).store.next_id + 10,
        final(world).store.pending@.len() == old(world).store.pending@.len() + 10,
        walls@.len() == 6,
        forall|k: int|
            0 <= k < 6 ==> (#[trigger] walls@[k].x as int, walls@[k].y as int, walls@[k].w as int,
            walls@[k].h as int) == level_walls(camh)[k],
        forall|k: int| 0 <= k < 6 ==> final(world).physics.has_collider(#[trigger] walls@[k].collider),
{
    let mut walls: Vec<WallPlacement> = Vec::new();
    // bottom
    place_wall(world, 64, camh - 32, 288, 32, &mut walls);
    create_sprite((0, camh - 80), (352, 0), (352, 80), world);
    place_wall(world, 0, camh - 80, 64, 48, &mut walls);
    // first pair of side walls
    create_sprite((0, camh - 128), (0, 0), (352, 48), world);
    place_wall(world, 0, camh - 128, 64, 48, &mut walls);
    place_wall(world, 288, camh - 128, 64, 48, &mut walls);
    // second pair of side walls
    create_sprite((0, camh - 176), (0, 0), (352, 48), world);
    place_wall(world, 0, camh - 176, 64, 48, &mut walls);
    place_wall(world, 288, camh - 176, 64, 48, &mut walls);
    create_cursor(world);
    proof {
        let w = walls@;
        assert forall|k: int| 0 <= k < 6 implies (#[trigger] w[k].x as int, w[k].y as int, w[k].w as int,
            w[k].h as int) == level_walls(camh)[k] by {
            assert(w.drop_last().drop_last().drop_last().drop_last().drop_last()[0] == w[0]);
            assert(w.drop_last().drop_last().drop_last().drop_last()[1] == w[1]);
            assert(w.drop_last().drop_last().drop_last()[2] == w[2]);
            assert(w.drop_last().drop_last()[3] == w[3]);
            assert(w.drop_last()[4] == w[4]);
        }
    }
    walls
}

} // verus!
