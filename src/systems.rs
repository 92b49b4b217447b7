use vstd::prelude::*;
use crate::components::{Bundle, HP, Kind, SpriteR, SpriteUV, SpriteXY, all_kinds, kind_bit};
use crate::physics::{Pose, handle_key};
use crate::store::{Entity, doom, key_matches, matching};
use crate::world::World;

verus! {

broadcast use vstd::seq_lib::lemma_seq_contains_after_push;

/// The texture corner swap on a left-button press.
pub open spec fn with_down_uv(e: Entity) -> Entity {
    match (e.parts.set_uv_on_lmb_down, e.parts.sprite_uv) {
        (Some(d), Some(_)) => Entity {
            parts: Bundle { sprite_uv: Some(SpriteUV(d.0, d.1)), ..e.parts },
            ..e
        },
        _ => e,
    }
}

/// The texture corner swap on a left-button release.
pub open spec fn with_up_uv(e: Entity) -> Entity {
    match (e.parts.set_uv_on_lmb_up, e.parts.sprite_uv) {
        (Some(d), Some(_)) => Entity {
            parts: Bundle { sprite_uv: Some(SpriteUV(d.0, d.1)), ..e.parts },
            ..e
        },
        _ => e,
    }
}

pub open spec fn down_uv_query() -> u64 {
    kind_bit(Kind::SetUVOnLMBDown) | kind_bit(Kind::SpriteUV)
}

pub open spec fn up_uv_query() -> u64 {
    kind_bit(Kind::SetUVOnLMBUp) | kind_bit(Kind::SpriteUV)
}

pub open spec fn snap_query() -> u64 {
    kind_bit(Kind::CursorSnapSpriteToGrid) | kind_bit(Kind::SpriteXY)
}

pub open spec fn kill_query() -> u64 {
    kind_bit(Kind::HP) | kind_bit(Kind::KillUpon0HP)
}

pub open spec fn sync_query() -> u64 {
    kind_bit(Kind::SpriteXY) | kind_bit(Kind::SpriteR) | kind_bit(Kind::PhysicsBody) | kind_bit(
        Kind::SyncSpriteToPhysics,
    )
}

pub open spec fn with_xy(e: Entity, xy: (i32, i32)) -> Entity {
    match e.parts.sprite_xy {
        Some(_) => Entity { parts: Bundle { sprite_xy: Some(SpriteXY(xy.0, xy.1)), ..e.parts }, ..e },
        None => e,
    }
}

/// An entity with no hit points left is flagged; others stay as they are.
pub open spec fn killed(e: Entity) -> Entity {
    match e.parts.hp {
        Some(h) => if h.0 == 0 {
            doom(e)
        } else {
            e
        },
        None => e,
    }
}

/// A sprite moved to the pose its body has in `bodies`.
pub open spec fn synced(e: Entity, bodies: Map<u64, Pose>) -> Entity {
    match (e.parts.sprite_xy, e.parts.sprite_r, e.parts.physics_body) {
        (Some(_), Some(r), Some(b)) => {
            let p = bodies[handle_key(b.0)];
            Entity {
                parts: Bundle {
                    sprite_xy: Some(SpriteXY(p.x, p.y)),
                    sprite_r: Some(SpriteR(p.r, r.1, r.2)),
                    ..e.parts
                },
                ..e
            }
        },
        _ => e,
    }
}

/// Rounds `n / d` to the nearest integer, halves away from zero.
pub open spec fn round_div(n: int, d: int) -> int {
    if n >= 0 {
        (2 * n + d) / (2 * d)
    } else {
        -((-2 * n + d) / (2 * d))
    }
}

pub open spec fn clamp(v: int, lo: int, hi: int) -> int {
    if v < lo {
        lo
    } else if v > hi {
        hi
    } else {
        v
    }
}

/// Cursor positions, in window pixels, and play-field heights that the
/// cursor rules accept.
pub open spec fn cursor_in_range(cursor: (i32, i32), camh: i32) -> bool {
    &&& -1_000_000 <= cursor.0 <= 1_000_000
    &&& -1_000_000 <= cursor.1 <= 1_000_000
    &&& 48 <= camh <= 100_000
}

/// The centre of the grid cell under the cursor, in play-field pixels. The
/// window shows the play field at three times its size; cells are 32
/// pixels wide, columns run from 80 to 272 and rows end at the floor,
/// `camh - 48`.
pub open spec fn grid_cell(cursor: (i32, i32), camh: i32) -> (int, int) {
    let floor = camh - 48;
    (
        clamp(round_div(cursor.0 - 240, 96) * 32 + 80, 80, 272),
        clamp(round_div(cursor.1 - 3 * floor, 96) * 32 + floor, -9_999_999, floor),
    )
}

/// Where a grid-snapped sprite is drawn: the cell's top left corner, in
/// thousandths of a pixel.
pub open spec fn cursor_target(cursor: (i32, i32), camh: i32) -> (i32, i32) {
    let c = grid_cell(cursor, camh);
    (((c.0 - 16) * 1000) as i32, ((c.1 - 16) * 1000) as i32)
}

fn round_div_exec(n: i64, d: i64) -> (r: i64)
    requires
        0 < d <= 1000,
        -10_000_000 <= n <= 10_000_000,
    ensures
        r == round_div(n as int, d as int),
        -30_000_000 <= r <= 30_000_000,
{
    if n >= 0 {
        let num = 2 * n + d;
        let q = num / (2 * d);
        assert(0 <= q <= num) by (nonlinear_arith)
            requires
                num >= 0,
                d > 0,
                q as int == num as int / (2 * d as int),
        ;
        q
    } else {
        let num = 2 * (0 - n) + d;
        let q = num / (2 * d);
        assert(0 <= q <= num) by (nonlinear_arith)
            requires
                num >= 0,
                d > 0,
                q as int == num as int / (2 * d as int),
        ;
        0 - q
    }
}

fn clamp_exec(v: i64, lo: i64, hi: i64) -> (r: i64)
    ensures
        r == clamp(v as int, lo as int, hi as int),
{
    if v < lo {
        lo
    } else if v > hi {
        hi
    } else {
        v
    }
}

/// The top left corner, in thousandths of a pixel, of the grid cell under
/// the cursor given in window pixels.
pub fn snap_to_grid(cursor: (i32, i32), camh: i32) -> (r: (i32, i32))
    requires
        cursor_in_range(cursor, camh),
    ensures
        r == cursor_target(cursor, camh),
        80 * 1000 - 16000 <= r.0 <= 272 * 1000 - 16000,
        r.1 <= (camh - 48 - 16) * 1000,
{
    let floor = camh as i64 - 48;
    let gx = clamp_exec(round_div_exec(cursor.0 as i64 - 240, 96) * 32 + 80, 80, 272);
    let gy = clamp_exec(
        round_div_exec(cursor.1 as i64 - 3 * floor, 96) * 32 + floor,
        -9_999_999,
        floor,
    );
    (((gx - 16) * 1000) as i32, ((gy - 16) * 1000) as i32)
}

/// On a left-button press, every entity with a press texture corner and a
/// sprite shows that corner.
pub fn apply_lmb_down_uv(world: &mut World)
    requires
        old(world).wf(),
        old(world).store.registered == all_kinds(),
    ensures
        final(world).wf(),
        final(world).store.live@.len() == old(world).store.live@.len(),
        forall|j: int|
            0 <= j < old(world).store.live@.len() ==> #[trigger] final(world).store.live@[j] == (
            if key_matches(old(world).store.live@[j].key, down_uv_query(), 0) {
                with_down_uv(old(world).store.live@[j])
            } else {
                old(world).store.live@[j]
            }),
        final(world).store.pending == old(world).store.pending,
        final(world).store.registered == old(world).store.registered,
        final(world).store.next_id == old(world).store.next_id,
        final(world).physics == old(world).physics,
{
    let inc = Kind::SetUVOnLMBDown.bit() | Kind::SpriteUV.bit();
    assert(inc & 0x3fff == inc) by (bit_vector)
        requires
            inc == 0x200u64 | 0x2u64,
    ;
    assert(0u64 & 0x3fff == 0u64) by (bit_vector);
    let hits = world.store.query(inc, 0);
    let count = world.store.len();
    let ghost before = world.store.live@;
    let mut k: usize = 0;
    while k < hits.len()
        invariant
            k <= hits@.len(),
            world.wf(),
            world.store.live@.len() == before.len(),
            world.store.pending == old(world).store.pending,
            world.store.registered == old(world).store.registered,
            world.store.next_id == old(world).store.next_id,
            world.physics == old(world).physics,
            before == old(world).store.live@,
            before.len() == count,
            forall|i: int|
                0 <= i < before.len() ==> (hits@.contains(i as usize) <==> key_matches(
                    #[trigger] before[i].key,
                    inc,
                    0,
                )),
            forall|q: int| 0 <= q < hits@.len() ==> #[trigger] hits@[q] < before.len(),
            forall|q: int, l: int|
                0 <= q < l < hits@.len() ==> #[trigger] hits@[q] < #[trigger] hits@[l],
            forall|j: int|
                0 <= j < before.len() ==> #[trigger] world.store.live@[j] == (if hits@.take(
                    k as int,
                ).contains(j as usize) {
                    with_down_uv(before[j])
                } else {
                    before[j]
                }),
        decreases hits@.len() - k,
    {
        let i = hits[k];
        proof {
            assert(hits@.take(k + 1) =~= hits@.take(k as int).push(i));
            if hits@.take(k as int).contains(i) {
                let q = choose|q: int| 0 <= q < k && hits@.take(k as int)[q] == i;
                assert(hits@[q] < hits@[k as int]);
            }
        }
        let ghost cur = world.store.live@;
        let e = world.store.get(i);
        assert(e == before[i as int]);
        match (e.parts.set_uv_on_lmb_down, e.parts.sprite_uv) {
            (Some(d), Some(_)) => {
                let parts = Bundle { sprite_uv: Some(SpriteUV(d.0, d.1)), ..e.parts };
                world.set_parts(i, parts);
            },
            _ => {},
        }
        assert(world.store.live@ =~= cur.update(i as int, with_down_uv(before[i as int])));
        proof {
            let done = hits@.take(k as int);
            assert forall|j: int| 0 <= j < before.len() implies #[trigger] world.store.live@[j] == (
            if hits@.take(k + 1).contains(j as usize) {
                with_down_uv(before[j])
            } else {
                before[j]
            }) by {
                assert(done.push(i).contains(j as usize) <==> (i == j as usize || done.contains(
                    j as usize,
                )));
                if j != i as int {
                    assert(world.store.live@[j] == cur[j]);
                }
            }
        }
        k = k + 1;
    }
    proof {
        assert(hits@.take(k as int) =~= hits@);
    }
}

/// On a left-button release, every entity with a release texture corner and
/// a sprite shows that corner.
pub fn apply_lmb_up_uv(world: &mut World)
    requires
        old(world).wf(),
        old(world).store.registered == all_kinds(),
    ensures
        final(world).wf(),
        final(world).store.live@.len() == old(world).store.live@.len(),
        forall|j: int|
            0 <= j < old(world).store.live@.len() ==> #[trigger] final(world).store.live@[j] == (
            if key_matches(old(world).store.live@[j].key, up_uv_query(), 0) {
                with_up_uv(old(world).store.live@[j])
            } else {
                old(world).store.live@[j]
            }),
        final(world).store.pending == old(world).store.pending,
        final(world).store.registered == old(world).store.registered,
        final(world).store.next_id == old(world).store.next_id,
        final(world).physics == old(world).physics,
{
    let inc = Kind::SetUVOnLMBUp.bit() | Kind::SpriteUV.bit();
    assert(inc & 0x3fff == inc) by (bit_vector)
        requires
            inc == 0x400u64 | 0x2u64,
    ;
    assert(0u64 & 0x3fff == 0u64) by (bit_vector);
    let hits = world.store.query(inc, 0);
    let count = world.store.len();
    let ghost before = world.store.live@;
    let mut k: usize = 0;
    while k < hits.len()
        invariant
            k <= hits@.len(),
            world.wf(),
            world.store.live@.len() == before.len(),
            world.store.pending == old(world).store.pending,
            world.store.registered == old(world).store.registered,
            world.store.next_id == old(world).store.next_id,
            world.physics == old(world).physics,
            before == old(world).store.live@,
            before.len() == count,
            forall|i: int|
                0 <= i < before.len() ==> (hits@.contains(i as usize) <==> key_matches(
                    #[trigger] before[i].key,
                    inc,
                    0,
                )),
            forall|q: int| 0 <= q < hits@.len() ==> #[trigger] hits@[q] < before.len(),
            forall|q: int, l: int|
                0 <= q < l < hits@.len() ==> #[trigger] hits@[q] < #[trigger] hits@[l],
            forall|j: int|
                0 <= j < before.len() ==> #[trigger] world.store.live@[j] == (if hits@.take(
                    k as int,
                ).contains(j as usize) {
                    with_up_uv(before[j])
                } else {
                    before[j]
                }),
        decreases hits@.len() - k,
    {
        let i = hits[k];
        proof {
            assert(hits@.take(k + 1) =~= hits@.take(k as int).push(i));
            if hits@.take(k as int).contains(i) {
                let q = choose|q: int| 0 <= q < k && hits@.take(k as int)[q] == i;
                assert(hits@[q] < hits@[k as int]);
            }
        }
        let ghost cur = world.store.live@;
        let e = world.store.get(i);
        assert(e == before[i as int]);
        match (e.parts.set_uv_on_lmb_up, e.parts.sprite_uv) {
            (Some(d), Some(_)) => {
                let parts = Bundle { sprite_uv: Some(SpriteUV(d.0, d.1)), ..e.parts };
                world.set_parts(i, parts);
            },
            _ => {},
        }
        assert(world.store.live@ =~= cur.update(i as int, with_up_uv(before[i as int])));
        proof {
            let done = hits@.take(k as int);
            assert forall|j: int| 0 <= j < before.len() implies #[trigger] world.store.live@[j] == (
            if hits@.take(k + 1).contains(j as usize) {
                with_up_uv(before[j])
            } else {
                before[j]
            }) by {
                assert(done.push(i).contains(j as usize) <==> (i == j as usize || done.contains(
                    j as usize,
                )));
                if j != i as int {
                    assert(world.store.live@[j] == cur[j]);
                }
            }
        }
        k = k + 1;
    }
    proof {
        assert(hits@.take(k as int) =~= hits@);
    }
}

/// Moves every grid-snapping sprite to the grid cell under the cursor,
/// given in window pixels.
pub fn snap_cursor_sprites(world: &mut World, cursor: (i32, i32), camh: i32)
    requires
        old(world).wf(),
        old(world).store.registered == all_kinds(),
        cursor_in_range(cursor, camh),
    ensures
        final(world).wf(),
        final(world).store.live@.len() == old(world).store.live@.len(),
        forall|j: int|
            0 <= j < old(world).store.live@.len() ==> #[trigger] final(world).store.live@[j] == (
            if key_matches(old(world).store.live@[j].key, snap_query(), 0) {
                with_xy(old(world).store.live@[j], cursor_target(cursor, camh))
            } else {
                old(world).store.live@[j]
            }),
        final(world).store.pending == old(world).store.pending,
        final(world).store.registered == old(world).store.registered,
        final(world).store.next_id == old(world).store.next_id,
        final(world).physics == old(world).physics,
{
    let target = snap_to_grid(cursor, camh);
    let inc = Kind::CursorSnapSpriteToGrid.bit() | Kind::SpriteXY.bit();
    assert(inc & 0x3fff == inc) by (bit_vector)
        requires
            inc == 0x80u64 | 0x1u64,
    ;
    assert(0u64 & 0x3fff == 0u64) by (bit_vector);
    let hits = world.store.query(inc, 0);
    let count = world.store.len();
    let ghost before = world.store.live@;
    let mut k: usize = 0;
    while k < hits.len()
        invariant
            k <= hits@.len(),
            world.wf(),
            world.store.live@.len() == before.len(),
            world.store.pending == old(world).store.pending,
            world.store.registered == old(world).store.registered,
            world.store.next_id == old(world).store.next_id,
            world.physics == old(world).physics,
            before == old(world).store.live@,
            before.len() == count,
            target == cursor_target(cursor, camh),
            forall|i: int|
                0 <= i < before.len() ==> (hits@.contains(i as usize) <==> key_matches(
                    #[trigger] before[i].key,
                    inc,
                    0,
                )),
            forall|q: int| 0 <= q < hits@.len() ==> #[trigger] hits@[q] < before.len(),
            forall|q: int, l: int|
                0 <= q < l < hits@.len() ==> #[trigger] hits@[q] < #[trigger] hits@[l],
            forall|j: int|
                0 <= j < before.len() ==> #[trigger] world.store.live@[j] == (if hits@.take(
                    k as int,
                ).contains(j as usize) {
                    with_xy(before[j], cursor_target(cursor, camh))
                } else {
                    before[j]
                }),
        decreases hits@.len() - k,
    {
        let i = hits[k];
        proof {
            assert(hits@.take(k + 1) =~= hits@.take(k as int).push(i));
            if hits@.take(k as int).contains(i) {
                let q = choose|q: int| 0 <= q < k && hits@.take(k as int)[q] == i;
                assert(hits@[q] < hits@[k as int]);
            }
        }
        let ghost cur = world.store.live@;
        let e = world.store.get(i);
        assert(e == before[i as int]);
        match e.parts.sprite_xy {
            Some(_) => {
                let parts = Bundle { sprite_xy: Some(SpriteXY(target.0, target.1)), ..e.parts };
                world.set_parts(i, parts);
            },
            None => {},
        }
        assert(world.store.live@ =~= cur.update(i as int, with_xy(before[i as int], cursor_target(cursor, camh))));
        proof {
            let done = hits@.take(k as int);
            assert forall|j: int| 0 <= j < before.len() implies #[trigger] world.store.live@[j] == (
            if hits@.take(k + 1).contains(j as usize) {
                with_xy(before[j], cursor_target(cursor, camh))
            } else {
                before[j]
            }) by {
                assert(done.push(i).contains(j as usize) <==> (i == j as usize || done.contains(
                    j as usize,
                )));
                if j != i as int {
                    assert(world.store.live@[j] == cur[j]);
                }
            }
        }
        k = k + 1;
    }
    proof {
        assert(hits@.take(k as int) =~= hits@);
    }
}

/// Flags for removal every entity that dies at zero hit points and has
/// none left. It stays visible until the next commit.
pub fn kill_upon_0_hp(world: &mut World)
    requires
        old(world).wf(),
        old(world).store.registered == all_kinds(),
    ensures
        final(world).wf(),
        final(world).store.live@.len() == old(world).store.live@.len(),
        forall|j: int|
            0 <= j < old(world).store.live@.len() ==> #[trigger] final(world).store.live@[j] == (
            if key_matches(old(world).store.live@[j].key, kill_query(), 0) {
                killed(old(world).store.live@[j])
            } else {
                old(world).store.live@[j]
            }),
        final(world).store.pending == old(world).store.pending,
        final(world).store.registered == old(world).store.registered,
        final(world).store.next_id == old(world).store.next_id,
        final(world).physics == old(world).physics,
{
    let inc = Kind::HP.bit() | Kind::KillUpon0HP.bit();
    assert(inc & 0x3fff == inc) by (bit_vector)
        requires
            inc == 0x800u64 | 0x2000u64,
    ;
    assert(0u64 & 0x3fff == 0u64) by (bit_vector);
    let hits = world.store.query(inc, 0);
    let count = world.store.len();
    let ghost before = world.store.live@;
    let mut k: usize = 0;
    while k < hits.len()
        invariant
            k <= hits@.len(),
            world.wf(),
            world.store.live@.len() == before.len(),
            world.store.pending == old(world).store.pending,
            world.store.registered == old(world).store.registered,
            world.store.next_id == old(world).store.next_id,
            world.physics == old(world).physics,
            before == old(world).store.live@,
            before.len() == count,
            forall|i: int|
                0 <= i < before.len() ==> (hits@.contains(i as usize) <==> key_matches(
                    #[trigger] before[i].key,
                    inc,
                    0,
                )),
            forall|q: int| 0 <= q < hits@.len() ==> #[trigger] hits@[q] < before.len(),
            forall|q: int, l: int|
                0 <= q < l < hits@.len() ==> #[trigger] hits@[q] < #[trigger] hits@[l],
            forall|j: int|
                0 <= j < before.len() ==> #[trigger] world.store.live@[j] == (if hits@.take(
                    k as int,
                ).contains(j as usize) {
                    killed(before[j])
                } else {
                    before[j]
                }),
        decreases hits@.len() - k,
    {
        let i = hits[k];
        proof {
            assert(hits@.take(k + 1) =~= hits@.take(k as int).push(i));
            if hits@.take(k as int).contains(i) {
                let q = choose|q: int| 0 <= q < k && hits@.take(k as int)[q] == i;
                assert(hits@[q] < hits@[k as int]);
            }
        }
        let ghost cur = world.store.live@;
        let e = world.store.get(i);
        assert(e == before[i as int]);
        match e.parts.hp {
            Some(h) => {
                if h.0 == 0 {
                    world.flag_destroy(i);
                }
            },
            None => {},
        }
        assert(world.store.live@ =~= cur.update(i as int, killed(before[i as int])));
        proof {
            let done = hits@.take(k as int);
            assert forall|j: int| 0 <= j < before.len() implies #[trigger] world.store.live@[j] == (
            if hits@.take(k + 1).contains(j as usize) {
                killed(before[j])
            } else {
                before[j]
            }) by {
                assert(done.push(i).contains(j as usize) <==> (i == j as usize || done.contains(
                    j as usize,
                )));
                if j != i as int {
                    assert(world.store.live@[j] == cur[j]);
                }
            }
        }
        k = k + 1;
    }
    proof {
        assert(hits@.take(k as int) =~= hits@);
    }
}

/// Moves every sprite that follows a physics body to the body's last known
/// pose: position and rotation; the rotation origin stays.
pub fn sync_sprite_to_physics(world: &mut World)
    requires
        old(world).wf(),
        old(world).store.registered == all_kinds(),
    ensures
        final(world).wf(),
        final(world).store.live@.len() == old(world).store.live@.len(),
        forall|j: int|
            0 <= j < old(world).store.live@.len() ==> #[trigger] final(world).store.live@[j] == (
            if key_matches(old(world).store.live@[j].key, sync_query(), 0) {
                synced(old(world).store.live@[j], old(world).physics.bodies@)
            } else {
                old(world).store.live@[j]
            }),
        final(world).store.pending == old(world).store.pending,
        final(world).store.registered == old(world).store.registered,
        final(world).store.next_id == old(world).store.next_id,
        final(world).physics == old(world).physics,
{
    let inc = Kind::SpriteXY.bit() | Kind::SpriteR.bit() | Kind::PhysicsBody.bit() | Kind::SyncSpriteToPhysics.bit();
    assert(inc & 0x3fff == inc) by (bit_vector)
        requires
            inc == 0x1u64 | 0x8u64 | 0x10u64 | 0x40u64,
    ;
    assert(0u64 & 0x3fff == 0u64) by (bit_vector);
    let hits = world.store.query(inc, 0);
    let count = world.store.len();
    let ghost before = world.store.live@;
    let mut k: usize = 0;
    while k < hits.len()
        invariant
            k <= hits@.len(),
            world.wf(),
            world.store.live@.len() == before.len(),
            world.store.pending == old(world).store.pending,
            world.store.registered == old(world).store.registered,
            world.store.next_id == old(world).store.next_id,
            world.physics == old(world).physics,
            before == old(world).store.live@,
            before.len() == count,
            forall|i: int|
                0 <= i < before.len() ==> (hits@.contains(i as usize) <==> key_matches(
                    #[trigger] before[i].key,
                    inc,
                    0,
                )),
            forall|q: int| 0 <= q < hits@.len() ==> #[trigger] hits@[q] < before.len(),
            forall|q: int, l: int|
                0 <= q < l < hits@.len() ==> #[trigger] hits@[q] < #[trigger] hits@[l],
            forall|j: int|
                0 <= j < before.len() ==> #[trigger] world.store.live@[j] == (if hits@.take(
                    k as int,
                ).contains(j as usize) {
                    synced(before[j], old(world).physics.bodies@)
                } else {
                    before[j]
                }),
        decreases hits@.len() - k,
    {
        let i = hits[k];
        proof {
            assert(hits@.take(k + 1) =~= hits@.take(k as int).push(i));
            if hits@.take(k as int).contains(i) {
                let q = choose|q: int| 0 <= q < k && hits@.take(k as int)[q] == i;
                assert(hits@[q] < hits@[k as int]);
            }
        }
        let ghost cur = world.store.live@;
        let e = world.store.get(i);
        assert(e == before[i as int]);
        match (e.parts.sprite_xy, e.parts.sprite_r, e.parts.physics_body) {
            (Some(_), Some(r), Some(b)) => {
                proof {
                    assert(world.all()[i as int] == world.store.live@[i as int]);
                    assert(world.handles_valid(world.all()[i as int]));
                }
                match world.physics.body_pose(b.0) {
                    Some(p) => {
                        let parts = Bundle {
                            sprite_xy: Some(SpriteXY(p.x, p.y)),
                            sprite_r: Some(SpriteR(p.r, r.1, r.2)),
                            ..e.parts
                        };
                        world.set_parts(i, parts);
                    },
                    None => {
                        assert(false);
                    },
                }
            },
            _ => {},
        }
        assert(world.store.live@ =~= cur.update(i as int, synced(before[i as int], old(world).physics.bodies@)));
        proof {
            let done = hits@.take(k as int);
            assert forall|j: int| 0 <= j < before.len() implies #[trigger] world.store.live@[j] == (
            if hits@.take(k + 1).contains(j as usize) {
                synced(before[j], old(world).physics.bodies@)
            } else {
                before[j]
            }) by {
                assert(done.push(i).contains(j as usize) <==> (i == j as usize || done.contains(
                    j as usize,
                )));
                if j != i as int {
                    assert(world.store.live@[j] == cur[j]);
                }
            }
        }
        k = k + 1;
    }
    proof {
        assert(hits@.take(k as int) =~= hits@);
    }
}


pub open spec fn damage_query() -> u64 {
    kind_bit(Kind::TakeCursorDamage) | kind_bit(Kind::HP) | kind_bit(Kind::PhysicsCollider)
}

pub open spec fn emit_query() -> u64 {
    kind_bit(Kind::CursorEmitDestroyEventOnLMBDown)
}

/// An entity that takes cursor damage loses `hits` hit points, stopping at
/// zero; others stay as they are.
pub open spec fn damaged(e: Entity, hits: u32) -> Entity {
    match (e.parts.hp, e.parts.take_cursor_damage) {
        (Some(h), Some(_)) => Entity {
            parts: Bundle {
                hp: Some(
                    HP(
                        if hits >= h.0 {
                            0u8
                        } else {
                            (h.0 - hits) as u8
                        },
                    ),
                ),
                ..e.parts
            },
            ..e
        },
        _ => e,
    }
}

/// `n / d`, rounded toward zero.
pub open spec fn trunc_div(n: int, d: int) -> int {
    if n >= 0 {
        n / d
    } else {
        -((-n) / d)
    }
}

/// The play-field point, in thousandths of a pixel, under the cursor given
/// in window pixels.
pub open spec fn cursor_point(cursor: (i32, i32)) -> (i32, i32) {
    (trunc_div(cursor.0 * 1000, 3) as i32, trunc_div(cursor.1 * 1000, 3) as i32)
}

/// The positions of the committed entities that take cursor damage: those
/// with hit points and a collider. The caller counts the destroy points
/// inside each one's collider and hands the count to
/// `apply_cursor_damage`.
pub fn damage_targets(world: &World) -> (r: Vec<usize>)
    requires
        world.wf(),
        world.store.registered == all_kinds(),
    ensures
        r@ == matching(world.store.live@, damage_query(), 0, world.store.live@.len() as int),
        forall|i: int|
            0 <= i < world.store.live@.len() ==> (r@.contains(i as usize) <==> key_matches(
                #[trigger] world.store.live@[i].key,
                damage_query(),
                0,
            )),
        forall|k: int| 0 <= k < r@.len() ==> #[trigger] r@[k] < world.store.live@.len(),
{
    let inc = Kind::TakeCursorDamage.bit() | Kind::HP.bit() | Kind::PhysicsCollider.bit();
    assert(inc & 0x3fff == inc) by (bit_vector)
        requires
            inc == 0x1000u64 | 0x800u64 | 0x20u64,
    ;
    assert(0u64 & 0x3fff == 0u64) by (bit_vector);
    world.store.query(inc, 0)
}

/// Takes `hits` hit points from the committed entity at `i`, if it takes
/// cursor damage; hit points stop at zero.
pub fn apply_cursor_damage(world: &mut World, i: usize, hits: u32)
    requires
        old(world).wf(),
        i < old(world).store.live@.len(),
    ensures
        final(world).wf(),
        final(world).store.live@ == old(world).store.live@.update(
            i as int,
            damaged(old(world).store.live@[i as int], hits),
        ),
        final(world).store.pending == old(world).store.pending,
        final(world).store.registered == old(world).store.registered,
        final(world).store.next_id == old(world).store.next_id,
        final(world).physics == old(world).physics,
{
    let e = world.store.get(i);
    match (e.parts.hp, e.parts.take_cursor_damage) {
        (Some(h), Some(_)) => {
            let left: u8 = if hits >= h.0 as u32 {
                0
            } else {
                (h.0 as u32 - hits) as u8
            };
            let parts = Bundle { hp: Some(HP(left)), ..e.parts };
            world.set_parts(i, parts);
        },
        _ => {
            assert(world.store.live@ =~= old(world).store.live@.update(i as int, e));
        },
    }
}

fn trunc_div_exec(n: i64, d: i64) -> (r: i64)
    requires
        0 < d,
        -10_000_000_000_000 <= n <= 10_000_000_000_000,
    ensures
        r == trunc_div(n as int, d as int),
{
    if n >= 0 {
        n / d
    } else {
        0 - ((0 - n) / d)
    }
}

/// The play-field point, in thousandths of a pixel, under the cursor given
/// in window pixels.
pub fn cursor_to_field(cursor: (i32, i32)) -> (r: (i32, i32))
    ensures
        r == cursor_point(cursor),
{
    (
        trunc_div_exec(cursor.0 as i64 * 1000, 3) as i32,
        trunc_div_exec(cursor.1 as i64 * 1000, 3) as i32,
    )
}

/// One destroy point at the cursor for each committed entity that emits
/// them; called when the left button goes down.
pub fn destroy_points(world: &World, cursor: (i32, i32)) -> (r: Vec<(i32, i32)>)
    requires
        world.wf(),
        world.store.registered == all_kinds(),
    ensures
        r@.len() == matching(world.store.live@, emit_query(), 0, world.store.live@.len() as int).len(),
        forall|k: int| 0 <= k < r@.len() ==> #[trigger] r@[k] == cursor_point(cursor),
{
    let inc = Kind::CursorEmitDestroyEventOnLMBDown.bit();
    assert(inc & 0x3fff == inc) by (bit_vector)
        requires
            inc == 0x100u64,
    ;
    assert(0u64 & 0x3fff == 0u64) by (bit_vector);
    let emitters = world.store.query(inc, 0);
    let p = cursor_to_field(cursor);
    let mut r: Vec<(i32, i32)> = Vec::new();
    let mut k: usize = 0;
    while k < emitters.len()
        invariant
            k <= emitters@.len(),
            r@.len() == k,
            p == cursor_point(cursor),
            forall|q: int| 0 <= q < r@.len() ==> #[trigger] r@[q] == p,
        decreases emitters@.len() - k,
    {
        r.push(p);
        k = k + 1;
    }
    r
}

/// Takes from every entity that takes cursor damage as many hit points as
/// `damage` gives at its position, stopping at zero.
pub fn apply_cursor_damage_all(world: &mut World, damage: &Vec<u32>)
    requires
        old(world).wf(),
        old(world).store.registered == all_kinds(),
        damage@.len() == old(world).store.live@.len(),
    ensures
        final(world).wf(),
        final(world).store.live@.len() == old(world).store.live@.len(),
        forall|j: int|
            0 <= j < old(world).store.live@.len() ==> #[trigger] final(world).store.live@[j] == (
            if key_matches(old(world).store.live@[j].key, damage_query(), 0) {
                damaged(old(world).store.live@[j], damage@[j])
            } else {
                old(world).store.live@[j]
            }),
        final(world).store.pending == old(world).store.pending,
        final(world).store.registered == old(world).store.registered,
        final(world).store.next_id == old(world).store.next_id,
        final(world).physics == old(world).physics,
{
    let inc = Kind::TakeCursorDamage.bit() | Kind::HP.bit() | Kind::PhysicsCollider.bit();
    assert(inc & 0x3fff == inc) by (bit_vector)
        requires
            inc == 0x1000u64 | 0x800u64 | 0x20u64,
    ;
    assert(0u64 & 0x3fff == 0u64) by (bit_vector);
    let hits = world.store.query(inc, 0);
    let count = world.store.len();
    let ghost before = world.store.live@;
    let mut k: usize = 0;
    while k < hits.len()
        invariant
            k <= hits@.len(),
            world.wf(),
            world.store.live@.len() == before.len(),
            world.store.pending == old(world).store.pending,
            world.store.registered == old(world).store.registered,
            world.store.next_id == old(world).store.next_id,
            world.physics == old(world).physics,
            before == old(world).store.live@,
            before.len() == count,
            damage@.len() == before.len(),
            forall|i: int|
                0 <= i < before.len() ==> (hits@.contains(i as usize) <==> key_matches(
                    #[trigger] before[i].key,
                    inc,
                    0,
                )),
            forall|q: int| 0 <= q < hits@.len() ==> #[trigger] hits@[q] < before.len(),
            forall|q: int, l: int|
                0 <= q < l < hits@.len() ==> #[trigger] hits@[q] < #[trigger] hits@[l],
            forall|j: int|
                0 <= j < before.len() ==> #[trigger] world.store.live@[j] == (if hits@.take(
                    k as int,
                ).contains(j as usize) {
                    damaged(before[j], damage@[j])
                } else {
                    before[j]
                }),
        decreases hits@.len() - k,
    {
        let i = hits[k];
        proof {
            assert(hits@.take(k + 1) =~= hits@.take(k as int).push(i));
            if hits@.take(k as int).contains(i) {
                let q = choose|q: int| 0 <= q < k && hits@.take(k as int)[q] == i;
                assert(hits@[q] < hits@[k as int]);
            }
        }
        let ghost cur = world.store.live@;
        let e = world.store.get(i);
        assert(e == before[i as int]);
        apply_cursor_damage(world, i, damage[i]);
        assert(world.store.live@ =~= cur.update(i as int, damaged(before[i as int], damage@[i as int])));
        proof {
            let done = hits@.take(k as int);
            assert forall|j: int| 0 <= j < before.len() implies #[trigger] world.store.live@[j] == (
            if hits@.take(k + 1).contains(j as usize) {
                damaged(before[j], damage@[j])
            } else {
                before[j]
            }) by {
                assert(done.push(i).contains(j as usize) <==> (i == j as usize || done.contains(
                    j as usize,
                )));
                if j != i as int {
                    assert(world.store.live@[j] == cur[j]);
                }
            }
        }
        k = k + 1;
    }
    proof {
        assert(hits@.take(k as int) =~= hits@);
    }
}

} // verus!
