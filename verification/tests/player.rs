use gra2d::player::Player;
use gra2d::units::{GROUND_Y, JUMP_VELOCITY, MAX_HEALTH, PLAYER_START_X};

#[test]
fn new_player_stands_at_the_start() {
    let p = Player::new();
    assert_eq!(p.x, PLAYER_START_X);
    assert_eq!(p.y, GROUND_Y);
    assert_eq!(p.velocity, 0);
    assert_eq!(p.health, MAX_HEALTH);
    assert_eq!(p.invulnerable_ms, 0);
}

#[test]
fn resting_player_stays_put_for_any_step() {
    for dt in [0u32, 1, 16, 1_000, 250_000, u32::MAX] {
        let mut p = Player::new();
        p.step(false, dt);
        assert_eq!(p, Player::new());
    }
}

#[test]
fn jump_from_ground_gives_the_impulse() {
    let mut p = Player::new();
    p.step(true, 10);
    assert_eq!(p.velocity, JUMP_VELOCITY);
    assert_eq!(p.velocity, 700);
    assert_eq!(p.y, GROUND_Y + 7_000);
}

#[test]
fn jump_with_no_time_keeps_the_impulse() {
    let mut p = Player::new();
    p.step(true, 0);
    assert_eq!(p.velocity, 700);
    assert_eq!(p.y, GROUND_Y);
    p.step(false, 10);
    assert_eq!(p.velocity, 700);
    assert_eq!(p.y, GROUND_Y + 7_000);
}

#[test]
fn held_key_does_not_jump_again_in_flight() {
    let mut held = Player::new();
    held.step(true, 16);
    let mut released = held;
    held.step(true, 16);
    released.step(false, 16);
    assert_eq!(held, released);
    assert_eq!(held.velocity, 700 - 32);
    assert!(held.velocity < JUMP_VELOCITY);
}

#[test]
fn gravity_formula_is_exact() {
    let mut p = Player::new();
    p.step(true, 10);
    p.step(false, 100);
    assert_eq!(p.velocity, 500);
    assert_eq!(p.y, GROUND_Y + 7_000 + 50_000);
    p.step(false, 50);
    assert_eq!(p.velocity, 400);
    assert_eq!(p.y, GROUND_Y + 7_000 + 50_000 + 20_000);
}

#[test]
fn velocity_falls_strictly_until_landing() {
    let mut p = Player::new();
    p.step(true, 16);
    let mut last = p.velocity;
    let mut landed = false;
    for _ in 0..200 {
        p.step(false, 16);
        assert!(p.y >= GROUND_Y);
        if p.y == GROUND_Y {
            assert_eq!(p.velocity, 0);
            landed = true;
            break;
        }
        assert!(p.velocity < last);
        last = p.velocity;
    }
    assert!(landed);
}

#[test]
fn player_never_sinks_below_ground() {
    let steps: [(bool, u32); 10] = [
        (true, 16),
        (false, 400),
        (true, 0),
        (false, u32::MAX),
        (true, u32::MAX),
        (false, u32::MAX),
        (false, 1),
        (true, 33),
        (false, 700),
        (false, 5_000),
    ];
    let mut p = Player::new();
    for (jump, dt) in steps {
        p.step(jump, dt);
        assert!(p.y >= GROUND_Y);
        assert!(p.velocity <= JUMP_VELOCITY);
    }
}

#[test]
fn longest_jump_step_is_within_range() {
    let mut p = Player::new();
    p.step(true, u32::MAX);
    assert_eq!(p.y, GROUND_Y + 700 * (u32::MAX as i64));
    p.step(false, u32::MAX);
    assert_eq!(p.y, GROUND_Y);
    assert_eq!(p.velocity, 0);
}

#[test]
fn landing_stops_the_fall() {
    let mut p = Player::at(0, GROUND_Y + 10_000).unwrap();
    p.step(false, 200);
    assert_eq!(p.y, GROUND_Y);
    assert_eq!(p.velocity, 0);
}

#[test]
fn standing_band_counts_as_ground() {
    let mut p = Player::at(0, GROUND_Y + 100).unwrap();
    p.step(true, 1);
    assert_eq!(p.velocity, 700);
    assert_eq!(p.y, GROUND_Y + 100 + 700);
    let mut q = Player::at(0, GROUND_Y + 101).unwrap();
    q.step(true, 1);
    assert_eq!(q.velocity, -2);
    assert_eq!(q.y, GROUND_Y + 101 - 2);
}

#[test]
fn player_at_rejects_places_out_of_range() {
    assert!(Player::at(0, GROUND_Y - 1).is_none());
    assert!(Player::at(1_000_000_000_001, GROUND_Y).is_none());
    assert!(Player::at(-1_000_000_000_001, GROUND_Y).is_none());
    assert!(Player::at(0, 1_000_000_000_001).is_none());
    let p = Player::at(1_000_000_000_000, 1_000_000_000_000).unwrap();
    assert_eq!(p.x, 1_000_000_000_000);
    assert_eq!(p.y, 1_000_000_000_000);
    assert_eq!(p.velocity, 0);
    assert_eq!(p.health, 3);
}

#[test]
fn revive_restores_health_and_ground() {
    let mut p = Player::at(5_000, GROUND_Y + 40_000).unwrap();
    p.health = 0;
    p.invulnerable_ms = 250;
    p.revive();
    assert_eq!(p.x, 5_000);
    assert_eq!(p.y, GROUND_Y);
    assert_eq!(p.velocity, 0);
    assert_eq!(p.health, 3);
    assert_eq!(p.invulnerable_ms, 250);
}
