use block_hop::components::{Bundle, Kind, SpriteXY, HP};
use block_hop::handle::Handle;
use block_hop::physics::Pose;
use block_hop::prefab::{
    create_cursor, create_level, create_normal_block, create_normal_block_particles, create_sprite,
    create_wall,
};
use block_hop::spawn::{drop_block, BLOCK_DROP_Y};
use block_hop::store::EntityStore;
use block_hop::systems::{apply_cursor_damage, damage_targets, kill_upon_0_hp};
use block_hop::world::World;

fn store_with_all_kinds() -> EntityStore {
    let mut s = EntityStore::new();
    for k in [
        Kind::SpriteXY,
        Kind::SpriteUV,
        Kind::SpriteWH,
        Kind::SpriteR,
        Kind::PhysicsBody,
        Kind::PhysicsCollider,
        Kind::SyncSpriteToPhysics,
        Kind::CursorSnapSpriteToGrid,
        Kind::CursorEmitDestroyEventOnLMBDown,
        Kind::SetUVOnLMBDown,
        Kind::SetUVOnLMBUp,
        Kind::HP,
        Kind::TakeCursorDamage,
        Kind::KillUpon0HP,
    ] {
        s.register(k);
    }
    s
}

fn with_xy_and_hp(x: i32, hp: Option<u8>) -> Bundle {
    let mut b = Bundle::empty();
    b.sprite_xy = Some(SpriteXY(x, 0));
    b.hp = hp.map(HP);
    b
}

#[test]
fn keys_follow_components() {
    let b = with_xy_and_hp(0, Some(3));
    assert_eq!(b.key(), Kind::SpriteXY.bit() | Kind::HP.bit());
    assert_eq!(Bundle::empty().key(), 0);
    assert_eq!(Kind::KillUpon0HP.bit(), 0x2000);
}

#[test]
fn registration_allocates_bits() {
    let mut s = EntityStore::new();
    assert_eq!(s.registered, 0);
    s.register(Kind::HP);
    s.register(Kind::SpriteXY);
    assert_eq!(s.registered, Kind::HP.bit() | Kind::SpriteXY.bit());
    assert_eq!(s.key_for(Kind::HP), 0x800);
}

#[test]
fn inserts_wait_for_commit() {
    let mut s = store_with_all_kinds();
    let id = s.insert(with_xy_and_hp(1, None));
    assert_eq!(id, 0);
    assert_eq!(s.len(), 0);
    assert!(s.query(Kind::SpriteXY.bit(), 0).is_empty());
    let removed = s.commit();
    assert!(removed.is_empty());
    assert_eq!(s.len(), 1);
    assert_eq!(s.query(Kind::SpriteXY.bit(), 0), vec![0]);
    assert_eq!(s.get(0).id, 0);
}

#[test]
fn query_selects_by_inclusion_and_exclusion() {
    let mut s = store_with_all_kinds();
    s.insert(with_xy_and_hp(1, None));
    s.insert(with_xy_and_hp(2, Some(1)));
    s.insert(Bundle { hp: Some(HP(2)), ..Bundle::empty() });
    s.insert(Bundle::empty());
    s.commit();
    let xy = Kind::SpriteXY.bit();
    let hp = Kind::HP.bit();
    assert_eq!(s.query(xy, 0), vec![0, 1]);
    assert_eq!(s.query(hp, 0), vec![1, 2]);
    assert_eq!(s.query(xy | hp, 0), vec![1]);
    assert_eq!(s.query(xy, hp), vec![0]);
    assert_eq!(s.query(hp, xy), vec![2]);
    assert_eq!(s.query(0, 0), vec![0, 1, 2, 3]);
    assert_eq!(s.query(0, xy | hp), vec![3]);
    assert!(s.query(xy, xy).is_empty());
}

#[test]
fn flagged_entities_stay_visible_until_commit() {
    let mut s = store_with_all_kinds();
    for x in 0..3 {
        s.insert(with_xy_and_hp(x, Some(1)));
    }
    s.commit();
    let xy = Kind::SpriteXY.bit();
    s.flag_destroy(1);
    assert_eq!(s.query(xy, 0), vec![0, 1, 2]);
    assert_eq!(s.len(), 3);
    let removed = s.commit();
    assert_eq!(removed.len(), 1);
    assert_eq!(removed[0].id, 1);
    assert_eq!(s.query(xy, 0), vec![0, 1]);
    assert_eq!(s.get(0).id, 0);
    assert_eq!(s.get(1).id, 2);
}

#[test]
fn commit_applies_removals_and_inserts_together() {
    let mut s = store_with_all_kinds();
    s.insert(with_xy_and_hp(0, None));
    s.commit();
    s.flag_destroy(0);
    let id = s.insert(with_xy_and_hp(9, None));
    assert_eq!(id, 1);
    assert_eq!(s.len(), 1);
    s.commit();
    assert_eq!(s.len(), 1);
    assert_eq!(s.get(0).id, 1);
    assert_eq!(s.get(0).parts.sprite_xy, Some(SpriteXY(9, 0)));
}

#[test]
fn set_parts_changes_values_only() {
    let mut s = store_with_all_kinds();
    s.insert(with_xy_and_hp(0, Some(2)));
    s.commit();
    s.set_parts(0, with_xy_and_hp(7, Some(1)));
    let e = s.get(0);
    assert_eq!(e.parts.sprite_xy, Some(SpriteXY(7, 0)));
    assert_eq!(e.parts.hp, Some(HP(1)));
    assert!(!e.doomed);
}

#[test]
fn prefabs_build_their_bundles() {
    let mut w = World::new();
    create_sprite((1, 2), (352, 0), (352, 80), &mut w);
    let wall = create_wall(&mut w);
    let (body, collider) = create_normal_block((96, -16), &mut w);
    let debris = create_normal_block_particles((10, 20), &mut w);
    create_cursor(&mut w);
    w.commit();
    assert_eq!(w.store.len(), 5);
    let sprite = w.store.get(0).parts;
    assert_eq!(sprite.sprite_xy, Some(SpriteXY(1000, 2000)));
    assert!(sprite.physics_body.is_none());
    assert_eq!(w.store.get(1).parts.physics_collider.map(|c| c.0), Some(wall));
    let block = w.store.get(2).parts;
    assert_eq!(block.hp, Some(HP(1)));
    assert_eq!(block.physics_body.map(|b| b.0), Some(body));
    assert_eq!(block.physics_collider.map(|c| c.0), Some(collider));
    assert!(block.kill_upon_0_hp.is_some() && block.take_cursor_damage.is_some());
    assert_eq!(w.physics.body_pose(body), Some(Pose { x: 96_000, y: -16_000, r: 0 }));
    assert_eq!(w.physics.body_pose(debris), Some(Pose { x: 10_000, y: 20_000, r: 0 }));
    let cursor = w.store.get(4).parts;
    assert_eq!(cursor.sprite_xy, Some(SpriteXY(-99_999_000, -99_999_000)));
    assert!(cursor.cursor_snap_sprite_to_grid.is_some());
    assert_ne!(body, collider);
    assert_ne!(wall, collider);
}

#[test]
fn destroying_an_entity_releases_its_handles() {
    let mut w = World::new();
    let (body, collider) = create_normal_block((96, -16), &mut w);
    let (other_body, _) = create_normal_block((128, -16), &mut w);
    w.commit();
    assert!(w.physics.body_pose(body).is_some());
    assert!(w.physics.collider_exists(collider));
    w.flag_destroy(0);
    assert!(w.physics.body_pose(body).is_some());
    let removed = w.commit();
    assert_eq!(removed.len(), 1);
    assert_eq!(w.physics.body_pose(body), None);
    assert!(!w.physics.collider_exists(collider));
    assert!(!w.physics.set_body_pose(body, Pose { x: 0, y: 0, r: 0 }));
    assert!(w.physics.body_pose(other_body).is_some());
}

#[test]
fn unknown_handles_fail_lookup() {
    let w = World::new();
    assert_eq!(w.physics.body_pose(Handle { id: 3, subid: 0 }), None);
    assert!(!w.physics.collider_exists(Handle { id: 0, subid: 0 }));
}

#[test]
fn five_blocks_damaged_once_each_are_removed() {
    let mut w = World::new();
    create_cursor(&mut w);
    create_wall(&mut w);
    w.commit();
    let baseline = w.store.len();
    for lane in 0..5 {
        create_normal_block((80 + lane * 32, 100), &mut w);
    }
    w.commit();
    assert_eq!(w.store.len(), baseline + 5);
    let targets = damage_targets(&w);
    assert_eq!(targets.len(), 5);
    for i in targets {
        apply_cursor_damage(&mut w, i, 1);
    }
    kill_upon_0_hp(&mut w);
    assert_eq!(w.store.len(), baseline + 5);
    let removed = w.commit();
    assert_eq!(removed.len(), 5);
    assert_eq!(w.store.len(), baseline);
    assert!(w.physics.bodies.is_empty());
}

#[test]
fn dropped_blocks_start_in_a_lane_above_the_field() {
    let mut w = World::new();
    let (x, body, _) = drop_block(&mut w);
    assert!((80..=272).contains(&x) && (x - 80) % 32 == 0);
    assert_eq!(w.physics.body_pose(body), Some(Pose { x: x * 1000, y: BLOCK_DROP_Y * 1000, r: 0 }));
    assert_eq!(w.store.pending.len(), 1);
}

#[test]
fn level_has_walls_backdrops_and_cursor() {
    let mut w = World::new();
    let walls = create_level(&mut w, 176);
    let boxes: Vec<(i32, i32, i32, i32)> = walls.iter().map(|p| (p.x, p.y, p.w, p.h)).collect();
    assert_eq!(
        boxes,
        vec![
            (64, 144, 288, 32),
            (0, 96, 64, 48),
            (0, 48, 64, 48),
            (288, 48, 64, 48),
            (0, 0, 64, 48),
            (288, 0, 64, 48),
        ]
    );
    for p in &walls {
        assert!(w.physics.collider_exists(p.collider));
    }
    w.commit();
    assert_eq!(w.store.len(), 10);
    assert_eq!(w.store.get(1).parts.sprite_xy, Some(SpriteXY(0, 96_000)));
}
