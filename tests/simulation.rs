use block_hop::components::{SpriteUV, SpriteXY, HP};
use block_hop::input::{InputEvent, TickInput};
use block_hop::physics::Pose;
use block_hop::prefab::create_normal_block;
use block_hop::simulation::Simulation;
use block_hop::spawn::BLOCK_INTERVAL_MICROS;

const NO_INPUT: TickInput = TickInput { close: false, lmb_pressed: false, lmb_released: false };
const PRESS: TickInput = TickInput { close: false, lmb_pressed: true, lmb_released: false };

fn cursor_index(sim: &Simulation) -> usize {
    (0..sim.world.store.len())
        .find(|i| sim.world.store.get(*i).parts.cursor_snap_sprite_to_grid.is_some())
        .unwrap()
}

#[test]
fn new_simulation_holds_the_level() {
    let (sim, walls) = Simulation::new(176);
    assert_eq!(walls.len(), 6);
    assert_eq!(sim.world.store.len(), 10);
    assert_eq!(sim.cursor, (0, 0));
    assert_eq!(sim.camh, 176);
}

#[test]
fn close_request_ends_the_tick_early() {
    let (mut sim, _) = Simulation::new(176);
    let start = sim.begin_tick(&vec![InputEvent::CloseRequested], BLOCK_INTERVAL_MICROS);
    assert!(start.input.close);
    assert!(start.dropped.is_none());
    assert_eq!(sim.spawner.elapsed, 0);
}

#[test]
fn a_block_drops_when_the_interval_passes() {
    let (mut sim, _) = Simulation::new(176);
    let start = sim.begin_tick(&Vec::new(), BLOCK_INTERVAL_MICROS);
    assert!(start.dropped.is_none());
    let before = sim.world.store.len();
    let start = sim.begin_tick(&vec![InputEvent::CursorMoved(300, 30)], 10);
    let (x, body, _) = start.dropped.expect("the interval has passed");
    assert!((80..=272).contains(&x));
    assert_eq!(sim.spawner.elapsed, 10);
    assert_eq!(sim.cursor, (300, 30));
    assert_eq!(sim.world.store.len(), before + 1);
    assert_eq!(sim.world.physics.body_pose(body), Some(Pose { x: x * 1000, y: -16_000, r: 0 }));
}

#[test]
fn finish_tick_snaps_the_cursor_and_swaps_its_texture() {
    let (mut sim, _) = Simulation::new(176);
    sim.begin_tick(&vec![InputEvent::CursorMoved(300, 300), InputEvent::LeftButton(true)], 10);
    let damage = vec![0; sim.world.store.len()];
    let removed = sim.finish_tick(PRESS, &damage);
    assert!(removed.is_empty());
    let c = sim.world.store.get(cursor_index(&sim)).parts;
    assert_eq!(c.sprite_xy, Some(SpriteXY(96_000, 80_000)));
    assert_eq!(c.sprite_uv, Some(SpriteUV(608, 208)));
    let release = TickInput { close: false, lmb_pressed: false, lmb_released: true };
    sim.finish_tick(release, &damage);
    assert_eq!(sim.world.store.get(cursor_index(&sim)).parts.sprite_uv, Some(SpriteUV(576, 208)));
}

#[test]
fn damage_needs_a_press() {
    let (mut sim, _) = Simulation::new(176);
    create_normal_block((96, 0), &mut sim.world);
    sim.world.commit();
    let n = sim.world.store.len();
    let damage = vec![1; n];
    sim.finish_tick(NO_INPUT, &damage);
    assert_eq!(sim.world.store.len(), n);
    assert_eq!(sim.world.store.get(n - 1).parts.hp, Some(HP(1)));
}

#[test]
fn five_damaged_blocks_leave_through_the_tick() {
    let (mut sim, _) = Simulation::new(176);
    let baseline = sim.world.store.len();
    for lane in 0..5 {
        create_normal_block((80 + lane * 32, 100), &mut sim.world);
    }
    sim.world.commit();
    let (points, targets) = sim.damage_probe();
    assert_eq!(points.len(), 1);
    assert_eq!(targets.len(), 5);
    let mut damage = vec![0; sim.world.store.len()];
    for i in targets {
        damage[i] = 1;
    }
    let removed = sim.finish_tick(PRESS, &damage);
    assert_eq!(removed.len(), 5);
    assert_eq!(sim.world.store.len(), baseline);
}

#[test]
fn end_frame_syncs_and_copies() {
    let (mut sim, _) = Simulation::new(176);
    let (body, _) = create_normal_block((96, 0), &mut sim.world);
    sim.world.commit();
    sim.world.physics.set_body_pose(body, Pose { x: 1_500, y: 2_500, r: 10 });
    let snap = sim.end_frame();
    assert_eq!(snap.rigid_bodies, vec![(1_500, 2_500)]);
    assert_eq!(snap.sprite_xys.last(), Some(&(1_500, 2_500)));
    assert_eq!(snap.sprite_rghs.last(), Some(&(10, -16, -16)));
    assert_eq!(snap.sprite_xys.len(), 5);
}
