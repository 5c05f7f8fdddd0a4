use gra2d::chance::coin_offset;
use gra2d::collision::Impact;
use gra2d::player::Player;
use gra2d::session::{Session, StepReport};
use gra2d::state::GameState;
use gra2d::units::{COIN_BAND_HIGH, COIN_BAND_LOW, GROUND_Y, OBSTACLE_Y, SPAWN_X};
use gra2d::world::{Entity, Kind};

fn playing() -> Session {
    let mut s = Session::new();
    s.step_with(true, 16, 60_000);
    assert_eq!(s.state, GameState::Playing);
    s
}

#[test]
fn menu_only_waits_for_the_key() {
    let mut s = Session::new();
    let report = s.step_with(false, 10_000, 60_000);
    assert_eq!(s.state, GameState::Menu);
    assert_eq!(s.player, Player::new());
    assert_eq!(s.difficulty.elapsed_ms, 0);
    assert_eq!(s.spawner.obstacle_dist, 0);
    assert_eq!(
        report,
        StepReport {
            obstacle: None,
            coin: None,
            collected: 0,
            impact: Impact { shielded: false, hurt: false, down: false },
            restarted: false,
        }
    );
    s.step_with(true, 10_000, 60_000);
    assert_eq!(s.state, GameState::Playing);
    assert_eq!(s.player, Player::new());
    assert_eq!(s.difficulty.elapsed_ms, 0);
}

#[test]
fn a_step_of_play_runs_every_system() {
    let mut s = playing();
    let report = s.step_with(true, 10, 60_000);
    assert_eq!(s.player.velocity, 700);
    assert_eq!(s.player.y, GROUND_Y + 7_000);
    assert_eq!(s.spawner.obstacle_dist, 4_000);
    assert_eq!(s.spawner.coin_dist, 4_000);
    assert_eq!(s.difficulty.elapsed_ms, 10);
    assert_eq!(s.difficulty.speed, 400);
    assert_eq!(s.score, 0);
    assert_eq!(report.obstacle, None);
    assert_eq!(report.coin, None);
    assert_eq!(s.world.entities.len(), 0);
}

#[test]
fn obstacles_and_coins_appear_at_their_spacing() {
    let mut s = playing();
    let first = s.step_with(false, 2_000, 60_000);
    assert_eq!(first.obstacle, Some(0));
    assert_eq!(first.coin, None);
    assert_eq!(
        s.world.entities,
        vec![Entity { id: 0, kind: Kind::Obstacle, x: SPAWN_X, y: OBSTACLE_Y, doomed: false }]
    );
    assert_eq!(s.spawner.obstacle_dist, 0);
    assert_eq!(s.spawner.coin_dist, 800_000);
    let second = s.step_with(false, 1_000, 60_000);
    assert_eq!(second.obstacle, None);
    assert_eq!(second.coin, Some(1));
    assert_eq!(
        s.world.entities,
        vec![
            Entity { id: 0, kind: Kind::Obstacle, x: 600_000, y: -85_000, doomed: false },
            Entity { id: 1, kind: Kind::Coin, x: 1_000_000, y: -40_000, doomed: false },
        ]
    );
}

#[test]
fn both_kinds_can_appear_in_one_step() {
    let mut s = playing();
    let report = s.step_with(false, 3_000, 179_999);
    assert_eq!(report.obstacle, Some(0));
    assert_eq!(report.coin, Some(1));
    assert_eq!(s.world.entities.len(), 2);
    assert_eq!(s.world.entities[1].y, GROUND_Y + 179_999);
    assert_eq!(s.world.next_id, 2);
}

#[test]
fn obstacle_reaches_the_player_after_two_and_a_half_seconds() {
    let mut s = playing();
    s.player = Player::at(0, GROUND_Y).unwrap();
    assert_eq!(s.world.spawn(Kind::Obstacle, 1_000_000, OBSTACLE_Y), Some(0));
    s.world.flush();
    assert_eq!(s.difficulty.speed, 400);
    let report = s.step_with(false, 2_500, 60_000);
    assert_eq!(s.world.entities[0].id, 0);
    assert_eq!(s.world.entities[0].x, 0);
    assert_eq!(s.player.health, 2);
    assert_eq!(s.player.invulnerable_ms, 1_000);
    assert_eq!(report.impact, Impact { shielded: false, hurt: true, down: false });
    assert_eq!(s.state, GameState::Playing);
}

#[test]
fn obstacle_out_of_reach_does_no_harm() {
    let mut s = playing();
    s.player = Player::at(0, GROUND_Y).unwrap();
    s.world.spawn(Kind::Obstacle, 1_000_000, OBSTACLE_Y);
    s.world.flush();
    s.step_with(false, 2_387, 60_000);
    assert_eq!(s.world.entities[0].x, 45_200);
    assert_eq!(s.player.health, 3);
    s.step_with(false, 1, 60_000);
    assert_eq!(s.world.entities[0].x, 44_800);
    assert_eq!(s.player.health, 2);
}

#[test]
fn coin_in_reach_is_collected_exactly_once() {
    let mut s = playing();
    s.player = Player::at(470_000, 30_000).unwrap();
    assert_eq!(s.world.spawn(Kind::Coin, 500_000, 0), Some(0));
    s.world.flush();
    let first = s.step_with(false, 0, 60_000);
    assert_eq!(first.collected, 1);
    assert_eq!(s.score, 1);
    assert_eq!(s.world.entities.len(), 0);
    assert_eq!(s.player.x, 470_000);
    assert_eq!(s.player.y, 30_000);
    let second = s.step_with(false, 0, 60_000);
    assert_eq!(second.collected, 0);
    assert_eq!(s.score, 1);
}

#[test]
fn coin_just_out_of_reach_stays() {
    let mut s = playing();
    s.player = Player::at(465_000, 30_000).unwrap();
    s.world.spawn(Kind::Coin, 500_000, 0);
    s.world.flush();
    s.step_with(false, 0, 60_000);
    assert_eq!(s.score, 0);
    assert_eq!(s.world.entities.len(), 1);
}

#[test]
fn third_hit_ends_the_run() {
    let mut s = playing();
    s.player = Player::at(0, GROUND_Y).unwrap();
    s.world.spawn(Kind::Obstacle, 0, OBSTACLE_Y);
    s.world.flush();
    s.step_with(false, 0, 60_000);
    assert_eq!(s.player.health, 2);
    s.step_with(false, 0, 60_000);
    assert_eq!(s.player.health, 2);
    s.player.invulnerable_ms = 0;
    s.step_with(false, 0, 60_000);
    assert_eq!(s.player.health, 1);
    s.player.invulnerable_ms = 0;
    let last = s.step_with(false, 0, 60_000);
    assert_eq!(s.player.health, 0);
    assert!(last.impact.down);
    assert_eq!(s.state, GameState::GameOver);
}

fn game_over() -> Session {
    let mut s = playing();
    s.step_with(true, 100, 60_000);
    s.step_with(false, 9_000, 60_000);
    s.player = Player::at(0, GROUND_Y).unwrap();
    s.player.health = 1;
    s.world.spawn(Kind::Obstacle, 0, OBSTACLE_Y);
    s.world.spawn(Kind::Coin, 0, GROUND_Y);
    s.world.flush();
    let report = s.step_with(false, 0, 60_000);
    assert!(report.impact.down);
    assert_eq!(report.collected, 1);
    assert_eq!(s.state, GameState::GameOver);
    assert_eq!(s.score, 1);
    assert_eq!(s.difficulty.speed, 450);
    assert!(s.world.entities.len() > 0);
    s
}

#[test]
fn game_over_waits_and_changes_nothing() {
    let mut s = game_over();
    let entities = s.world.entities.clone();
    let report = s.step_with(false, 7_000, 60_000);
    assert_eq!(s.state, GameState::GameOver);
    assert_eq!(s.score, 1);
    assert_eq!(s.difficulty.speed, 450);
    assert_eq!(s.world.entities, entities);
    assert!(!report.restarted);
}

#[test]
fn restart_resets_the_whole_session() {
    let mut s = game_over();
    let report = s.step_with(true, 16, 60_000);
    assert!(report.restarted);
    assert_eq!(s.state, GameState::Playing);
    assert_eq!(s.player.health, 3);
    assert_eq!(s.player.velocity, 0);
    assert_eq!(s.player.y, GROUND_Y);
    assert_eq!(s.score, 0);
    assert_eq!(s.difficulty.speed, 400);
    assert_eq!(s.spawner.obstacle_dist, 0);
    assert_eq!(s.spawner.coin_dist, 0);
    assert_eq!(s.world.entities.len(), 0);
    assert_eq!(s.world.queued.len(), 0);
}

#[test]
fn reset_can_be_called_directly() {
    let mut s = game_over();
    s.reset();
    assert_eq!(s.state, GameState::GameOver);
    assert_eq!(s.player.health, 3);
    assert_eq!(s.score, 0);
    assert_eq!(s.difficulty.speed, 400);
    assert_eq!(s.world.entities.len(), 0);
}

#[test]
fn has_room_for_an_ordinary_session() {
    let mut s = playing();
    assert!(s.has_room());
    s.score = u32::MAX;
    assert!(s.has_room());
    s.world.spawn(Kind::Coin, 0, 0);
    s.world.flush();
    assert!(!s.has_room());
    s.score = 0;
    s.world.next_id = u64::MAX - 1;
    assert!(!s.has_room());
}

#[test]
fn drawn_coin_offsets_lie_in_the_band_and_vary() {
    let first = coin_offset();
    let mut varied = false;
    for _ in 0..500 {
        let offset = coin_offset();
        assert!(offset >= COIN_BAND_LOW);
        assert!(offset < COIN_BAND_HIGH);
        assert!(offset >= 50_000 && offset < 180_000);
        if offset != first {
            varied = true;
        }
    }
    assert!(varied);
}

#[test]
fn random_step_places_the_coin_in_the_band() {
    for _ in 0..50 {
        let mut s = playing();
        let report = s.step(false, 3_000);
        assert_eq!(report.coin, Some(1));
        let coin = s.world.entities[1];
        assert_eq!(coin.kind, Kind::Coin);
        assert_eq!(coin.x, SPAWN_X);
        assert!(coin.y >= GROUND_Y + COIN_BAND_LOW);
        assert!(coin.y < GROUND_Y + COIN_BAND_HIGH);
    }
}

#[test]
fn long_run_keeps_every_invariant() {
    let mut s = playing();
    let mut last_speed = s.difficulty.speed;
    for i in 0..5_000u32 {
        assert!(s.has_room());
        let pressed = i % 45 == 0;
        s.step(pressed, 16 + (i % 3));
        assert!(s.player.y >= GROUND_Y);
        assert!(s.player.health <= 3);
        assert!(s.difficulty.speed >= last_speed || s.difficulty.speed == 400);
        assert!(s.difficulty.speed <= 1_200);
        assert!(s.spawner.obstacle_dist < 800_000);
        assert!(s.spawner.coin_dist < 1_200_000);
        for pair in s.world.entities.windows(2) {
            assert!(pair[0].id < pair[1].id);
        }
        for e in &s.world.entities {
            assert!(e.x >= -1_000_000);
            assert!(!e.doomed);
        }
        last_speed = s.difficulty.speed;
        if s.state == GameState::GameOver {
            s.step(true, 16);
            assert_eq!(s.state, GameState::Playing);
            assert_eq!(s.score, 0);
            last_speed = s.difficulty.speed;
        }
    }
}
