use block_hop::handle::{Handle, HandleGenerator};
use block_hop::scheduler::{tick_lengths, FixedStepScheduler, TICK_CAP_MICROS};
use block_hop::spawn::{lane_x, random_lane_x, BlockSpawner, BLOCK_INTERVAL_MICROS};
use block_hop::time::{
    get_microseconds_as_u32, get_microseconds_as_u64, get_milliseconds_as_u32,
    get_milliseconds_as_u64, micros_from_parts, millis_from_parts, Clock,
};

#[test]
fn ticks_cover_elapsed_time_exactly() {
    let ticks = tick_lengths(150_000, 66_666);
    assert_eq!(ticks, vec![66_666, 66_666, 16_668]);
    assert_eq!(ticks.iter().sum::<u64>(), 150_000);
}

#[test]
fn ticks_of_no_time_are_empty() {
    assert!(tick_lengths(0, TICK_CAP_MICROS).is_empty());
}

#[test]
fn ticks_of_whole_caps_have_no_remainder() {
    assert_eq!(tick_lengths(133_332, 66_666), vec![66_666, 66_666]);
}

#[test]
fn ticks_shorter_than_cap_are_one_tick() {
    assert_eq!(tick_lengths(1, 66_666), vec![1]);
    assert_eq!(tick_lengths(66_666, 66_666), vec![66_666]);
}

#[test]
fn ticks_respect_cap_for_long_gaps() {
    let ticks = tick_lengths(1_000_000, 66_666);
    assert_eq!(ticks.len(), 16);
    assert!(ticks.iter().all(|t| *t <= 66_666 && *t > 0));
    assert!(ticks[..15].iter().all(|t| *t == 66_666));
    assert_eq!(ticks[15], 1_000_000 - 15 * 66_666);
    assert_eq!(ticks.iter().sum::<u64>(), 1_000_000);
}

#[test]
fn scheduler_advances_last_update() {
    let mut s = FixedStepScheduler::new(1_000, TICK_CAP_MICROS);
    assert_eq!(s.advance(151_000), vec![66_666, 66_666, 16_668]);
    assert_eq!(s.last_update, 151_000);
    assert!(s.advance(151_000).is_empty());
    assert_eq!(s.advance(151_010), vec![10]);
}

#[test]
fn handle_generator_counts_up() {
    let mut g = HandleGenerator::new();
    assert_eq!(g.gen(), Handle { id: 0, subid: 0 });
    assert_eq!(g.gen(), Handle { id: 1, subid: 0 });
    assert_eq!(g.id, 2);
}

#[test]
fn handle_next_sub_id() {
    let h = Handle { id: 4, subid: 0 };
    let n = h.gen_next();
    assert_eq!(n, Handle { id: 4, subid: 1 });
    assert_eq!(n.gen_next(), Handle { id: 4, subid: 2 });
    assert!(h < n);
}

#[test]
fn spawner_fires_every_interval() {
    let mut s = BlockSpawner::new();
    let mut fired = 0;
    let mut ticks = 0;
    while fired == 0 {
        if s.tick(TICK_CAP_MICROS) {
            fired += 1;
        }
        ticks += 1;
    }
    // 45 ticks make 2,999,970 microseconds; the 46th passes three seconds.
    assert_eq!(ticks, 46);
    assert_eq!(s.elapsed, 46 * TICK_CAP_MICROS - BLOCK_INTERVAL_MICROS);
}

#[test]
fn spawner_does_not_fire_at_exactly_the_interval() {
    let mut s = BlockSpawner::new();
    assert!(!s.tick(BLOCK_INTERVAL_MICROS));
    assert_eq!(s.elapsed, BLOCK_INTERVAL_MICROS);
    assert!(s.tick(1));
    assert_eq!(s.elapsed, 1);
}

#[test]
fn lanes_are_seven_columns() {
    assert_eq!(lane_x(0), 80);
    assert_eq!(lane_x(1), 112);
    assert_eq!(lane_x(6), 272);
    assert_eq!(lane_x(7), 80);
    assert_eq!(lane_x(u32::MAX), 80 + (u32::MAX % 7) as i32 * 32);
}

#[test]
fn random_lanes_are_lanes() {
    for _ in 0..100 {
        let x = random_lane_x();
        assert!((80..=272).contains(&x));
        assert_eq!((x - 80) % 32, 0);
    }
}

#[test]
fn time_parts_convert_exactly() {
    assert_eq!(micros_from_parts(2, 500_000_000), 2_500_000);
    assert_eq!(micros_from_parts(0, 999), 0);
    assert_eq!(micros_from_parts(0, 1_999), 1);
    assert_eq!(millis_from_parts(3, 999_999_999), 3_999);
    assert_eq!(millis_from_parts(0, 0), 0);
}

#[test]
fn time_parts_wrap_to_64_bits() {
    let secs = u64::MAX;
    let expected = ((secs as u128) * 1_000_000) as u64;
    assert_eq!(micros_from_parts(secs, 0), expected);
}

#[test]
fn clock_reads_forward() {
    let clock = Clock::new();
    let a = get_microseconds_as_u64(&clock);
    let (_, nanos) = clock.elapsed();
    assert!(nanos < 1_000_000_000);
    let b = get_microseconds_as_u64(&clock);
    assert!(b >= a);
    assert!(get_milliseconds_as_u64(&clock) <= b / 1_000 + 1);
    assert!(get_milliseconds_as_u32(&clock) < 1_000_000);
    assert!(get_microseconds_as_u32(&clock) < 1_000_000_000);
}

#[test]
fn clock_counts_elapsed_time() {
    let clock = Clock::new();
    let start = std::time::Instant::now();
    while start.elapsed().as_millis() < 5 {}
    assert!(get_microseconds_as_u64(&clock) >= 5_000);
}
