use gra2d::pacer::{pace, SpawnerDistance};
use gra2d::units::{COIN_SPACING, OBSTACLE_SPACING};

#[test]
fn accumulator_adds_distance_below_the_spacing() {
    let mut acc: u64 = 0;
    assert!(!pace(&mut acc, 400, 16, 800_000));
    assert_eq!(acc, 6_400);
    assert!(!pace(&mut acc, 400, 1_983, 800_000));
    assert_eq!(acc, 799_600);
}

#[test]
fn reaching_the_spacing_exactly_spawns() {
    let mut acc: u64 = 799_600;
    assert!(pace(&mut acc, 400, 1, 800_000));
    assert_eq!(acc, 0);
}

#[test]
fn passing_the_spacing_spawns_once_and_starts_from_zero() {
    let mut acc: u64 = 100;
    assert!(pace(&mut acc, 1_200, u32::MAX, 800_000));
    assert_eq!(acc, 0);
    let mut huge: u64 = u64::MAX;
    assert!(pace(&mut huge, u32::MAX, u32::MAX, 800_000));
    assert_eq!(huge, 0);
}

#[test]
fn events_match_distance_over_spacing_at_a_steady_pace() {
    for (speed, dt) in [(400u32, 10u32), (400, 100), (500, 16), (1_000, 8), (800, 1_000)] {
        let gain = (speed as u64) * (dt as u64);
        assert_eq!(OBSTACLE_SPACING % gain, 0);
        let mut s = SpawnerDistance::new();
        let mut events: u64 = 0;
        for n in 1..=1_000u64 {
            if s.advance_obstacles(speed, dt) {
                events += 1;
            }
            assert_eq!(events, n * gain / OBSTACLE_SPACING);
        }
    }
}

#[test]
fn overshoot_is_thrown_away() {
    let mut s = SpawnerDistance::new();
    let mut events = 0;
    for _ in 0..8 {
        if s.advance_obstacles(500, 1_000) {
            events += 1;
        }
    }
    assert_eq!(events, 4);
    assert_eq!(s.obstacle_dist, 0);
}

#[test]
fn the_two_accumulators_are_independent() {
    let mut s = SpawnerDistance::new();
    assert!(!s.advance_obstacles(400, 1_000));
    assert_eq!(s.obstacle_dist, 400_000);
    assert_eq!(s.coin_dist, 0);
    assert!(!s.advance_coins(400, 2_000));
    assert_eq!(s.coin_dist, 800_000);
    assert!(s.advance_obstacles(400, 1_000));
    assert_eq!(s.obstacle_dist, 0);
    assert_eq!(s.coin_dist, 800_000);
    assert!(!s.coin_due(400, 999));
    assert!(s.coin_due(400, 1_000));
    assert_eq!(s.coin_dist, 800_000);
    assert!(s.advance_coins(400, 1_000));
    assert_eq!(s.coin_dist, 0);
    assert_eq!(COIN_SPACING, 1_200_000);
}

#[test]
fn reset_empties_both_accumulators() {
    let mut s = SpawnerDistance { obstacle_dist: 5, coin_dist: 7 };
    s.reset();
    assert_eq!(s, SpawnerDistance::new());
}
