use block_hop::components::{SpriteR, SpriteUV, SpriteXY, HP};
use block_hop::input::{poll_events, InputEvent, TickInput};
use block_hop::physics::Pose;
use block_hop::prefab::{create_cursor, create_normal_block, create_sprite};
use block_hop::snapshot::{build_snapshot, quad_indices};
use block_hop::systems::{
    apply_cursor_damage, apply_lmb_down_uv, apply_lmb_up_uv, cursor_to_field, damage_targets,
    destroy_points, kill_upon_0_hp, snap_cursor_sprites, snap_to_grid, sync_sprite_to_physics,
};
use block_hop::world::World;

const CAMH: i32 = 176;

fn world_with_cursor_and_block() -> World {
    let mut w = World::new();
    create_cursor(&mut w);
    create_normal_block((96, 0), &mut w);
    w.commit();
    w
}

#[test]
fn snapping_rounds_to_the_nearest_cell() {
    assert_eq!(snap_to_grid((300, 300), CAMH), (96_000, 80_000));
    assert_eq!(snap_to_grid((288, 384), CAMH), (96_000, 112_000));
    assert_eq!(snap_to_grid((287, 384), CAMH), (64_000, 112_000));
}

#[test]
fn snapping_clamps_to_the_play_field() {
    assert_eq!(snap_to_grid((2000, 2000), CAMH), (256_000, 112_000));
    assert_eq!(snap_to_grid((0, 0), CAMH), (64_000, -16_000));
    assert_eq!(snap_to_grid((-500, -500), CAMH), (64_000, -176_000));
}

#[test]
fn cursor_points_are_in_field_units() {
    assert_eq!(cursor_to_field((300, -301)), (100_000, -100_333));
    assert_eq!(cursor_to_field((1, 2)), (333, 666));
}

#[test]
fn press_and_release_swap_cursor_texture() {
    let mut w = world_with_cursor_and_block();
    apply_lmb_down_uv(&mut w);
    assert_eq!(w.store.get(0).parts.sprite_uv, Some(SpriteUV(608, 208)));
    assert_eq!(w.store.get(1).parts.sprite_uv, Some(SpriteUV(352, 144)));
    apply_lmb_up_uv(&mut w);
    assert_eq!(w.store.get(0).parts.sprite_uv, Some(SpriteUV(576, 208)));
}

#[test]
fn cursor_sprite_follows_grid() {
    let mut w = world_with_cursor_and_block();
    snap_cursor_sprites(&mut w, (300, 300), CAMH);
    assert_eq!(w.store.get(0).parts.sprite_xy, Some(SpriteXY(96_000, 80_000)));
    assert_eq!(w.store.get(1).parts.sprite_xy, Some(SpriteXY(96_000, 0)));
}

#[test]
fn one_destroy_point_per_emitter() {
    let w = world_with_cursor_and_block();
    assert_eq!(destroy_points(&w, (300, 30)), vec![(100_000, 10_000)]);
    let empty = World::new();
    assert!(destroy_points(&empty, (300, 30)).is_empty());
}

#[test]
fn damage_stops_at_zero() {
    let mut w = world_with_cursor_and_block();
    assert_eq!(damage_targets(&w), vec![1]);
    apply_cursor_damage(&mut w, 1, 5);
    assert_eq!(w.store.get(1).parts.hp, Some(HP(0)));
    apply_cursor_damage(&mut w, 1, 1);
    assert_eq!(w.store.get(1).parts.hp, Some(HP(0)));
}

#[test]
fn damage_ignores_entities_without_hit_points() {
    let mut w = world_with_cursor_and_block();
    let before = w.store.get(0).parts;
    apply_cursor_damage(&mut w, 0, 3);
    assert_eq!(w.store.get(0).parts, before);
}

#[test]
fn zero_damage_keeps_blocks_alive() {
    let mut w = world_with_cursor_and_block();
    apply_cursor_damage(&mut w, 1, 0);
    kill_upon_0_hp(&mut w);
    assert!(!w.store.get(1).doomed);
    w.commit();
    assert_eq!(w.store.len(), 2);
}

#[test]
fn killed_blocks_leave_at_commit() {
    let mut w = world_with_cursor_and_block();
    apply_cursor_damage(&mut w, 1, 1);
    kill_upon_0_hp(&mut w);
    assert!(w.store.get(1).doomed);
    assert!(!w.store.get(0).doomed);
    assert_eq!(damage_targets(&w), vec![1]);
    w.commit();
    assert_eq!(w.store.len(), 1);
    assert!(damage_targets(&w).is_empty());
}

#[test]
fn sprites_follow_their_bodies() {
    let mut w = world_with_cursor_and_block();
    let body = w.store.get(1).parts.physics_body.unwrap().0;
    assert!(w.physics.set_body_pose(body, Pose { x: 100_500, y: 7_250, r: 1_570_796 }));
    sync_sprite_to_physics(&mut w);
    let block = w.store.get(1).parts;
    assert_eq!(block.sprite_xy, Some(SpriteXY(100_500, 7_250)));
    assert_eq!(block.sprite_r, Some(SpriteR(1_570_796, -16, -16)));
    assert_eq!(w.store.get(0).parts.sprite_xy, Some(SpriteXY(-99_999_000, -99_999_000)));
}

#[test]
fn events_are_read_in_order() {
    let mut cursor = (0, 0);
    let events = vec![
        InputEvent::CursorMoved(10, 20),
        InputEvent::LeftButton(true),
        InputEvent::Other,
        InputEvent::CursorMoved(30, 40),
        InputEvent::LeftButton(false),
    ];
    let t = poll_events(&mut cursor, &events);
    assert_eq!(t, TickInput { close: false, lmb_pressed: true, lmb_released: true });
    assert_eq!(cursor, (30, 40));
}

#[test]
fn nothing_is_read_after_close() {
    let mut cursor = (1, 1);
    let events = vec![
        InputEvent::LeftButton(true),
        InputEvent::CloseRequested,
        InputEvent::CursorMoved(5, 5),
        InputEvent::LeftButton(false),
    ];
    let t = poll_events(&mut cursor, &events);
    assert_eq!(t, TickInput { close: true, lmb_pressed: true, lmb_released: false });
    assert_eq!(cursor, (1, 1));
}

#[test]
fn no_events_change_nothing() {
    let mut cursor = (7, 8);
    let t = poll_events(&mut cursor, &Vec::new());
    assert_eq!(t, TickInput { close: false, lmb_pressed: false, lmb_released: false });
    assert_eq!(cursor, (7, 8));
}

#[test]
fn snapshot_copies_sprites_and_bodies() {
    let mut w = World::new();
    create_sprite((0, 96), (352, 0), (352, 80), &mut w);
    create_normal_block((96, 0), &mut w);
    w.commit();
    let s = build_snapshot(&w);
    assert_eq!(s.sprite_xys, vec![(0, 96_000), (96_000, 0)]);
    assert_eq!(s.sprite_uvs, vec![(352, 0), (352, 144)]);
    assert_eq!(s.sprite_whs, vec![(352, 80), (32, 32)]);
    assert_eq!(s.sprite_rghs, vec![(0, 0, 0), (0, -16, -16)]);
    assert_eq!(s.rigid_bodies, vec![(96_000, 0)]);
}

#[test]
fn snapshot_of_empty_world_is_empty() {
    let s = build_snapshot(&World::new());
    assert!(s.sprite_xys.is_empty() && s.rigid_bodies.is_empty());
}

#[test]
fn quads_are_two_triangles() {
    assert_eq!(quad_indices(2), vec![0, 1, 2, 2, 3, 0, 4, 5, 6, 6, 7, 4]);
    assert!(quad_indices(0).is_empty());
}
