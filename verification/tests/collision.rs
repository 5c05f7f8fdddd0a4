use gra2d::collision::{check_collisions, Impact};
use gra2d::player::Player;
use gra2d::units::{GROUND_Y, INVULNERABLE_MS, OBSTACLE_Y};
use gra2d::world::{Kind, World};

fn obstacle_at(x: i64) -> World {
    let mut w = World::new();
    w.spawn(Kind::Obstacle, x, OBSTACLE_Y);
    w.flush();
    w
}

#[test]
fn a_hit_costs_one_point_and_opens_the_grace_period() {
    let w = obstacle_at(0);
    let mut p = Player::at(0, GROUND_Y).unwrap();
    let impact = check_collisions(&mut p, &w, 16);
    assert_eq!(impact, Impact { shielded: false, hurt: true, down: false });
    assert_eq!(p.health, 2);
    assert_eq!(p.invulnerable_ms, INVULNERABLE_MS);
    assert_eq!(p.invulnerable_ms, 1_000);
    assert_eq!(w.entities.len(), 1);
    assert!(!w.entities[0].doomed);
}

#[test]
fn no_damage_within_the_grace_period() {
    let w = obstacle_at(0);
    let mut p = Player::at(0, GROUND_Y).unwrap();
    check_collisions(&mut p, &w, 16);
    let impact = check_collisions(&mut p, &w, 400);
    assert_eq!(impact, Impact { shielded: true, hurt: false, down: false });
    assert_eq!(p.health, 2);
    assert_eq!(p.invulnerable_ms, 600);
    check_collisions(&mut p, &w, 700);
    assert_eq!(p.health, 2);
    assert_eq!(p.invulnerable_ms, 0);
    let again = check_collisions(&mut p, &w, 16);
    assert_eq!(again, Impact { shielded: false, hurt: true, down: false });
    assert_eq!(p.health, 1);
    assert_eq!(p.invulnerable_ms, 1_000);
}

#[test]
fn the_last_point_brings_the_player_down() {
    let w = obstacle_at(0);
    let mut p = Player::at(0, GROUND_Y).unwrap();
    p.health = 1;
    let impact = check_collisions(&mut p, &w, 16);
    assert_eq!(impact, Impact { shielded: false, hurt: true, down: true });
    assert_eq!(p.health, 0);
    assert_eq!(p.invulnerable_ms, 0);
}

#[test]
fn several_obstacles_cost_one_point_in_a_step() {
    let mut w = World::new();
    w.spawn(Kind::Obstacle, 0, OBSTACLE_Y);
    w.spawn(Kind::Obstacle, 10_000, OBSTACLE_Y);
    w.spawn(Kind::Obstacle, -10_000, OBSTACLE_Y);
    w.flush();
    let mut p = Player::at(0, GROUND_Y).unwrap();
    let impact = check_collisions(&mut p, &w, 16);
    assert!(impact.hurt);
    assert_eq!(p.health, 2);
}

#[test]
fn a_miss_changes_nothing() {
    let w = obstacle_at(45_000);
    let mut p = Player::at(0, GROUND_Y).unwrap();
    let impact = check_collisions(&mut p, &w, 16);
    assert_eq!(impact, Impact { shielded: false, hurt: false, down: false });
    assert_eq!(p, Player::at(0, GROUND_Y).unwrap());
}

#[test]
fn coins_do_not_hurt() {
    let mut w = World::new();
    w.spawn(Kind::Coin, 0, GROUND_Y);
    w.flush();
    let mut p = Player::at(0, GROUND_Y).unwrap();
    let impact = check_collisions(&mut p, &w, 16);
    assert!(!impact.hurt);
    assert_eq!(p.health, 3);
}
