//! One session of the game: the state machine and everything it governs,
//! advanced one step at a time.
//!
//! A step in `Playing` runs the systems in a fixed order: the player moves,
//! everything scrolls, obstacles and coins are paced and queued, the
//! difficulty ramps, obstacles are resolved, coins are gathered. All of them
//! see the scroll speed that the step began with. Removals and spawns take
//! effect when the step ends. In the menu and on the game-over screen a step
//! only waits for the key.

use vstd::prelude::*;
use crate::chance::{coin_offset, in_coin_band};
use crate::collision::{check_collisions, collect_coins, downed, struck, Impact};
use crate::difficulty::Difficulty;
use crate::hud::{hud_line, hud_text};
use crate::pacer::{paced, travelled, SpawnerDistance};
use crate::player::Player;
use crate::spawn::{
    coin_due, new_coin, new_obstacle, obstacle_due, spawn_coins, spawn_obstacles,
};
use crate::state::{next_state, GameState};
use crate::units::{
    BASE_SPEED, COIN_BAND_LOW, COIN_SPACING, GROUND_Y, MAX_HEALTH, OBSTACLE_SPACING,
    PLAYER_START_X,
};
use crate::world::{
    coins_in_reach, lemma_coins_in_reach_bound, moved, obstacle_in_reach, picked, survivors,
    Entity, World,
};

verus! {

/// Everything that one session holds.
#[derive(Debug)]
pub struct Session {
    pub state: GameState,
    pub player: Player,
    /// Coins gathered in the running game.
    pub score: u32,
    pub difficulty: Difficulty,
    pub spawner: SpawnerDistance,
    pub world: World,
}

/// What a step did, for the host to show.
#[derive(Clone, Copy, Debug, PartialEq, Eq)]
pub struct StepReport {
    /// Identifier of the obstacle that the step spawned, if it spawned one.
    pub obstacle: Option<u64>,
    /// Identifier of the coin that the step spawned, if it spawned one.
    pub coin: Option<u64>,
    /// Number of coins gathered.
    pub collected: u32,
    /// Outcome of resolving the obstacles.
    pub impact: Impact,
    /// The step reset the session for a new run.
    pub restarted: bool,
}

impl Session {
    /// The parts are well formed, no spawn is waiting between two steps, and
    /// outside the game-over screen the player has health left.
    pub open spec fn wf(self) -> bool {
        &&& self.player.wf()
        &&& self.difficulty.wf()
        &&& self.spawner.wf()
        &&& self.world.wf()
        &&& self.world.queued@.len() == 0
        &&& self.state != GameState::GameOver ==> self.player.health >= 1
    }

    /// The player after its movement in a step of play.
    pub open spec fn moved_player(self, pressed: bool, dt: u32) -> Player {
        self.player.stepped(pressed, dt)
    }

    /// The entities after the scroll of a step of play.
    pub open spec fn moved_entities(self, dt: u32) -> Seq<Entity> {
        moved(self.world.entities@, self.difficulty.speed * dt)
    }

    /// Whether an obstacle overlaps the player once both have moved.
    pub open spec fn hit(self, pressed: bool, dt: u32) -> bool {
        obstacle_in_reach(
            self.moved_entities(dt),
            self.moved_player(pressed, dt).x,
            self.moved_player(pressed, dt).y,
        )
    }

    /// Number of coins in reach of the player once both have moved.
    pub open spec fn coins_gathered(self, pressed: bool, dt: u32) -> nat {
        coins_in_reach(
            self.moved_entities(dt),
            self.moved_player(pressed, dt).x,
            self.moved_player(pressed, dt).y,
        )
    }

    /// Whether a step of play makes an obstacle due.
    pub open spec fn obstacle_due(self, dt: u32) -> bool {
        obstacle_due(self.spawner, self.difficulty.speed, dt)
    }

    /// Whether a step of play makes a coin due.
    pub open spec fn coin_due(self, dt: u32) -> bool {
        coin_due(self.spawner, self.difficulty.speed, dt)
    }

    /// Identifier of the coin that a step of play spawns, if one is due: the
    /// next free one after that of the obstacle.
    pub open spec fn coin_id(self, dt: u32) -> int {
        if self.obstacle_due(dt) {
            self.world.next_id + 1
        } else {
            self.world.next_id as int
        }
    }

    /// The entities that a step of play spawns: an obstacle at its fixed
    /// height if one is due, then a coin `offset` above the ground line if one
    /// is due.
    pub open spec fn spawned(self, dt: u32, offset: i64) -> Seq<Entity> {
        let obstacles = if self.obstacle_due(dt) {
            seq![new_obstacle(self.world.next_id)]
        } else {
            Seq::empty()
        };
        let coins = if self.coin_due(dt) {
            seq![new_coin(self.coin_id(dt) as u64, offset)]
        } else {
            Seq::empty()
        };
        obstacles + coins
    }

    /// The machine has room for the step: in play, the score can take the
    /// coins in reach and there are identifiers for what is due.
    pub open spec fn can_step(self, pressed: bool, dt: u32) -> bool {
        self.state == GameState::Playing ==> {
            &&& self.score + self.coins_gathered(pressed, dt) <= u32::MAX
            &&& self.world.next_id + (if self.obstacle_due(dt) {
                1int
            } else {
                0int
            }) + (if self.coin_due(dt) {
                1int
            } else {
                0int
            }) <= u64::MAX
        }
    }

    /// `after` is this session with nothing changed but, possibly, the state.
    pub open spec fn idles_to(self, after: Session) -> bool {
        &&& after.player == self.player
        &&& after.score == self.score
        &&& after.difficulty == self.difficulty
        &&& after.spawner == self.spawner
        &&& after.world.entities@ == self.world.entities@
        &&& after.world.queued@ == self.world.queued@
        &&& after.world.next_id == self.world.next_id
    }

    /// `after` is this session reset for a new run: full health, at rest on
    /// the ground line, no score, base speed, empty accumulators, no entities.
    pub open spec fn resets_to(self, after: Session) -> bool {
        &&& after.player == (Player {
            y: GROUND_Y,
            velocity: 0,
            health: MAX_HEALTH,
            ..self.player
        })
        &&& after.score == 0
        &&& after.difficulty == (Difficulty { speed: BASE_SPEED, ..self.difficulty })
        &&& after.spawner == (SpawnerDistance { obstacle_dist: 0, coin_dist: 0 })
        &&& after.world.entities@.len() == 0
        &&& after.world.queued@.len() == 0
        &&& after.world.next_id == self.world.next_id
    }

    /// `after` is this session after one step of play in which a coin, if one
    /// is due, appears `offset` above the ground line.
    pub open spec fn plays_to(self, after: Session, pressed: bool, dt: u32, offset: i64) -> bool {
        let mover = self.moved_player(pressed, dt);
        &&& after.player == struck(mover, self.hit(pressed, dt), dt)
        &&& after.score == self.score + self.coins_gathered(pressed, dt)
        &&& after.difficulty == self.difficulty.ticked(dt)
        &&& after.spawner.obstacle_dist == paced(
            self.spawner.obstacle_dist as nat,
            travelled(self.difficulty.speed, dt),
            OBSTACLE_SPACING as nat,
        )
        &&& after.spawner.coin_dist == paced(
            self.spawner.coin_dist as nat,
            travelled(self.difficulty.speed, dt),
            COIN_SPACING as nat,
        )
        &&& after.world.entities@ == survivors(picked(self.moved_entities(dt), mover.x, mover.y))
            + self.spawned(dt, offset)
        &&& after.world.queued@.len() == 0
        &&& after.world.next_id == self.world.next_id + self.spawned(dt, offset).len()
    }

    /// `after` is this session after one step.
    pub open spec fn steps_to(self, after: Session, pressed: bool, dt: u32, offset: i64) -> bool {
        let down = downed(self.moved_player(pressed, dt), self.hit(pressed, dt));
        match self.state {
            GameState::Menu => {
                &&& self.idles_to(after)
                &&& after.state == next_state(self.state, pressed, false)
            },
            GameState::Playing => {
                &&& self.plays_to(after, pressed, dt, offset)
                &&& after.state == next_state(self.state, pressed, down)
            },
            GameState::GameOver => {
                &&& after.state == next_state(self.state, pressed, false)
                &&& pressed ==> self.resets_to(after)
                &&& !pressed ==> self.idles_to(after)
            },
        }
    }

    /// `report` is what a step of this session reports.
    pub open spec fn reports(self, report: StepReport, pressed: bool, dt: u32) -> bool {
        let playing = self.state == GameState::Playing;
        let mover = self.moved_player(pressed, dt);
        &&& report.obstacle == if playing && self.obstacle_due(dt) {
            Some(self.world.next_id)
        } else {
            None
        }
        &&& report.coin == if playing && self.coin_due(dt) {
            Some(self.coin_id(dt) as u64)
        } else {
            None
        }
        &&& report.collected == if playing {
            self.coins_gathered(pressed, dt)
        } else {
            0
        }
        &&& report.impact.shielded == (playing && mover.invulnerable_ms > 0)
        &&& report.impact.down == (playing && downed(mover, self.hit(pressed, dt)))
        &&& report.impact.hurt == (playing && struck(mover, self.hit(pressed, dt), dt).health
            < mover.health)
        &&& report.restarted == (self.state == GameState::GameOver && pressed)
    }

    /// A session at its start: in the menu, with a fresh player, no score, the
    /// base speed and an empty world whose first entity will get identifier 0.
    pub fn new() -> (s: Session)
        ensures
            s.wf(),
            s.state == GameState::Menu,
            s.player == (Player {
                x: PLAYER_START_X,
                y: GROUND_Y,
                velocity: 0,
                health: MAX_HEALTH,
                invulnerable_ms: 0,
            }),
            s.score == 0,
            s.difficulty == (Difficulty { speed: BASE_SPEED, elapsed_ms: 0 }),
            s.spawner == (SpawnerDistance { obstacle_dist: 0, coin_dist: 0 }),
            s.world.entities@.len() == 0,
            s.world.queued@.len() == 0,
            s.world.next_id == 0,
    {
        Session {
            state: GameState::initial(),
            player: Player::new(),
            score: 0,
            difficulty: Difficulty::new(),
            spawner: SpawnerDistance::new(),
            world: World::new(),
        }
    }

    /// Resets the session for a new run and leaves the state as it is: full
    /// health, at rest on the ground line, no score, base speed, empty
    /// accumulators, no entities.
    pub fn reset(&mut self)
        requires
            old(self).wf(),
        ensures
            final(self).wf(),
            old(self).resets_to(*final(self)),
            final(self).state == old(self).state,
    {
        self.score = 0;
        self.difficulty.reset_speed();
        self.spawner.reset();
        self.player.revive();
        self.world.clear();
    }

    /// Whether the machine has room for any next step: the score can take
    /// every entity as a coin, and two identifiers are free.
    pub fn has_room(&self) -> (room: bool)
        ensures
            room ==> forall|pressed: bool, dt: u32| #[trigger] self.can_step(pressed, dt),
            room == (self.score + self.world.entities@.len() <= u32::MAX && self.world.next_id + 2
                <= u64::MAX),
    {
        let count: usize = self.world.entities.len();
        let room: bool = count <= u32::MAX as usize && count as u64 + self.score as u64
            <= u32::MAX as u64 && self.world.next_id <= u64::MAX - 2;
        proof {
            if room {
                assert forall|pressed: bool, dt: u32| #[trigger] self.can_step(pressed, dt) by {
                    let mover = self.moved_player(pressed, dt);
                    lemma_coins_in_reach_bound(self.moved_entities(dt), mover.x, mover.y);
                }
            }
        }
        room
    }

    /// The text of the heads-up display for the session as it stands.
    pub fn hud(&self) -> (text: String)
        ensures
            text@ == hud_line(self.player.health, self.score, self.difficulty.speed),
    {
        hud_text(self.player.health, self.score, self.difficulty.speed)
    }

    /// Advances the session by one step of `dt` milliseconds. `pressed` is
    /// true only in the step in which the key went down. A coin that the step
    /// spawns appears `offset` above the ground line.
    pub fn step_with(&mut self, pressed: bool, dt: u32, offset: i64) -> (report: StepReport)
        requires
            old(self).wf(),
            old(self).can_step(pressed, dt),
            in_coin_band(offset),
        ensures
            final(self).wf(),
            old(self).steps_to(*final(self), pressed, dt, offset),
            old(self).reports(report, pressed, dt),
    {
        let calm = Impact { shielded: false, hurt: false, down: false };
        let quiet = StepReport {
            obstacle: None,
            coin: None,
            collected: 0,
            impact: calm,
            restarted: false,
        };
        match self.state {
            GameState::Menu => {
                self.state = self.state.transition(pressed, false);
                quiet
            },
            GameState::GameOver => {
                if pressed {
                    self.reset();
                }
                self.state = self.state.transition(pressed, false);
                StepReport { restarted: pressed, ..quiet }
            },
            GameState::Playing => {
                let ghost before = *self;
                let speed: u32 = self.difficulty.speed;
                self.player.step(pressed, dt);
                self.world.scroll(speed, dt);
                let obstacle = spawn_obstacles(&mut self.spawner, &mut self.world, speed, dt);
                let coin = spawn_coins(&mut self.spawner, &mut self.world, speed, dt, offset);
                assert(self.world.queued@ =~= before.spawned(dt, offset));
                self.difficulty.advance(dt);
                let impact = check_collisions(&mut self.player, &self.world, dt);
                let collected = collect_coins(&self.player, &mut self.world, &mut self.score);
                self.world.flush();
                self.state = self.state.transition(pressed, impact.down);
                StepReport { obstacle, coin, collected, impact, restarted: false }
            },
        }
    }

    /// Advances the session by one step of `dt` milliseconds, drawing the
    /// height of a coin that the step spawns at random from the coin band.
    pub fn step(&mut self, pressed: bool, dt: u32) -> (report: StepReport)
        requires
            old(self).wf(),
            old(self).can_step(pressed, dt),
        ensures
            final(self).wf(),
            exists|offset: i64|
                in_coin_band(offset) && #[trigger] old(self).steps_to(
                    *final(self),
                    pressed,
                    dt,
                    offset,
                ),
            old(self).reports(report, pressed, dt),
    {
        let playing: bool = match self.state {
            GameState::Playing => true,
            _ => false,
        };
        let offset: i64 = if playing && self.spawner.coin_due(self.difficulty.speed, dt) {
            coin_offset()
        } else {
            COIN_BAND_LOW
        };
        self.step_with(pressed, dt, offset)
    }
}

/// The key on the game-over screen starts a new run from a clean slate: full
/// health, no score, the base speed, empty accumulators and no entity left.
pub proof fn lemma_restart_is_clean(s: Session, after: Session, dt: u32, offset: i64)
    requires
        s.state == GameState::GameOver,
        s.steps_to(after, true, dt, offset),
    ensures
        after.state == GameState::Playing,
        after.player.health == MAX_HEALTH,
        after.player.velocity == 0,
        after.player.y == GROUND_Y,
        after.score == 0,
        after.difficulty.speed == BASE_SPEED,
        after.spawner.obstacle_dist == 0,
        after.spawner.coin_dist == 0,
        after.world.entities@.len() == 0,
        after.world.queued@.len() == 0,
{
}

/// Outside play nothing moves: without the key a step in the menu or on the
/// game-over screen changes nothing at all.
pub proof fn lemma_waiting_changes_nothing(s: Session, after: Session, dt: u32, offset: i64)
    requires
        s.state != GameState::Playing,
        s.steps_to(after, false, dt, offset),
    ensures
        after.state == s.state,
        s.idles_to(after),
{
}

/// In play the health never rises, falls by at most one point in a step, and
/// the run ends exactly when the last point is lost.
pub proof fn lemma_play_costs_at_most_one(
    s: Session,
    after: Session,
    pressed: bool,
    dt: u32,
    offset: i64,
)
    requires
        s.wf(),
        s.state == GameState::Playing,
        s.steps_to(after, pressed, dt, offset),
    ensures
        after.player.health <= s.player.health,
        s.player.health - after.player.health <= 1,
        after.state == GameState::GameOver <==> after.player.health == 0,
        after.state == GameState::GameOver || after.state == GameState::Playing,
        after.score >= s.score,
{
}

} // verus!
