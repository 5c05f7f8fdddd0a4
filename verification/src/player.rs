//! The player: vertical motion under jump and gravity, health and the grace
//! period after a hit.

use vstd::prelude::*;
use crate::units::{
    COORD_LIMIT, GRAVITY_PER_MS, GROUND_TOLERANCE, GROUND_Y, JUMP_VELOCITY, MAX_HEALTH,
    PLAYER_START_X,
};

verus! {

/// The player of one session.
///
/// `x` and `y` are the centre of the player's box in thousandths of a unit,
/// `velocity` is the vertical velocity in units per second (upwards positive),
/// `invulnerable_ms` is what is left of the grace period after a hit.
#[derive(Clone, Copy, Debug, PartialEq, Eq, Structural)]
pub struct Player {
    pub x: i64,
    pub y: i64,
    pub velocity: i64,
    pub health: u32,
    pub invulnerable_ms: u32,
}

/// A player at this height stands on the ground: the ground line itself and a
/// thin band above it.
pub open spec fn grounded(y: int) -> bool {
    y <= GROUND_Y + GROUND_TOLERANCE
}

/// Upper bound of `velocity² + 4 · height` over every reachable motion: the
/// value right after the longest possible first step of a jump that started at
/// the top of the standing band, `700² + 4 · (100 + 700 · (2³² - 1))`.
pub open spec fn energy_limit() -> int {
    12_025_908_916_400
}

/// No reachable velocity lies further than this from zero.
pub open spec fn velocity_limit() -> int {
    3_500_000
}

/// No reachable height above the ground line exceeds this.
pub open spec fn height_limit() -> int {
    energy_limit() / 4
}

impl Player {
    /// Height above the ground line.
    pub open spec fn height(self) -> int {
        self.y - GROUND_Y
    }

    /// Twice the mechanical energy per unit of mass, in the crate's units. A
    /// step of free flight never raises it, which bounds height and velocity.
    pub open spec fn energy(self) -> int {
        self.velocity * self.velocity + 4 * self.height()
    }

    /// What holds of every player that the library hands out.
    pub open spec fn wf(self) -> bool {
        &&& -COORD_LIMIT <= self.x <= COORD_LIMIT
        &&& self.y >= GROUND_Y
        &&& self.velocity <= JUMP_VELOCITY
        &&& self.energy() <= energy_limit()
        &&& self.health <= MAX_HEALTH
    }

    /// Whether the player stands on the ground.
    pub open spec fn on_ground(self) -> bool {
        grounded(self.y as int)
    }

    /// The velocity with which the player moves during a step: the jump
    /// impulse when a jump is asked for on the ground, the old velocity when
    /// standing without a jump, and the old velocity less gravity in flight.
    pub open spec fn step_velocity(self, jump: bool, dt: u32) -> int {
        if self.on_ground() {
            if jump {
                JUMP_VELOCITY as int
            } else {
                self.velocity as int
            }
        } else {
            self.velocity - GRAVITY_PER_MS * dt
        }
    }

    /// Height reached by a step before the ground is taken into account.
    pub open spec fn raw_y(self, jump: bool, dt: u32) -> int {
        self.y + self.step_velocity(jump, dt) * dt
    }

    /// Whether a step ends with the player caught by the ground.
    pub open spec fn lands(self, jump: bool, dt: u32) -> bool {
        self.raw_y(jump, dt) <= GROUND_Y && self.step_velocity(jump, dt) < 0
    }

    /// The player after one step of `dt` milliseconds.
    pub open spec fn stepped(self, jump: bool, dt: u32) -> Player {
        let raw = self.raw_y(jump, dt);
        Player {
            x: self.x,
            y: if raw <= GROUND_Y {
                GROUND_Y
            } else {
                raw as i64
            },
            velocity: if self.lands(jump, dt) {
                0
            } else {
                self.step_velocity(jump, dt) as i64
            },
            health: self.health,
            invulnerable_ms: self.invulnerable_ms,
        }
    }

    /// The player after a run of steps, each given by its jump signal and its
    /// length.
    pub open spec fn after(self, steps: Seq<(bool, u32)>) -> Player
        decreases steps.len(),
    {
        if steps.len() == 0 {
            self
        } else {
            self.after(steps.drop_last()).stepped(steps.last().0, steps.last().1)
        }
    }

    /// A fresh player: on the ground at the start position, at rest, with full
    /// health and no grace period.
    pub fn new() -> (p: Player)
        ensures
            p.wf(),
            p == (Player {
                x: PLAYER_START_X,
                y: GROUND_Y,
                velocity: 0,
                health: MAX_HEALTH,
                invulnerable_ms: 0,
            }),
    {
        let p = Player {
            x: PLAYER_START_X,
            y: GROUND_Y,
            velocity: 0,
            health: MAX_HEALTH,
            invulnerable_ms: 0,
        };
        assert(p.energy() == 0) by (nonlinear_arith)
            requires
                p.velocity == 0,
                p.y == GROUND_Y,
        ;
        p
    }

    /// A player at rest at the given place, with full health. `None` when the
    /// place is out of range: further than `COORD_LIMIT` from zero on the
    /// horizontal axis, below the ground line or above `COORD_LIMIT`.
    pub fn at(x: i64, y: i64) -> (r: Option<Player>)
        ensures
            r is Some <==> -COORD_LIMIT <= x <= COORD_LIMIT && GROUND_Y <= y <= COORD_LIMIT,
            r matches Some(p) ==> p.wf() && p == (Player {
                x,
                y,
                velocity: 0,
                health: MAX_HEALTH,
                invulnerable_ms: 0,
            }),
    {
        if x < -COORD_LIMIT || x > COORD_LIMIT || y < GROUND_Y || y > COORD_LIMIT {
            return None;
        }
        let p = Player { x, y, velocity: 0, health: MAX_HEALTH, invulnerable_ms: 0 };
        assert(p.energy() == 4 * (y - GROUND_Y)) by (nonlinear_arith)
            requires
                p.velocity == 0,
                p.y == y,
        ;
        Some(p)
    }

    /// Puts the player back on its feet for a new run: full health, at rest
    /// on the ground line. The horizontal place and what is left of a grace
    /// period stay as they are.
    pub fn revive(&mut self)
        requires
            old(self).wf(),
        ensures
            final(self).wf(),
            *final(self) == (Player {
                y: GROUND_Y,
                velocity: 0,
                health: MAX_HEALTH,
                ..*old(self)
            }),
    {
        self.y = GROUND_Y;
        self.velocity = 0;
        self.health = MAX_HEALTH;
        assert(self.energy() == 0) by (nonlinear_arith)
            requires
                self.velocity == 0,
                self.y == GROUND_Y,
        ;
    }

    /// Moves the player through one step of `dt` milliseconds. `jump` is true
    /// only in the step in which the jump key went down.
    pub fn step(&mut self, jump: bool, dt: u32)
        requires
            old(self).wf(),
        ensures
            *final(self) == old(self).stepped(jump, dt),
            final(self).wf(),
    {
        proof {
            lemma_step_keeps_wf(*self, jump, dt);
            lemma_energy_bounds(*self);
        }
        let on_ground: bool = self.y <= GROUND_Y + GROUND_TOLERANCE;
        let wide_dt: i64 = dt as i64;
        let v: i64 = if on_ground {
            if jump {
                JUMP_VELOCITY
            } else {
                self.velocity
            }
        } else {
            self.velocity - GRAVITY_PER_MS * wide_dt
        };
        assert(-1_000_000_000_000_000_000_000 <= v * dt <= 10_000_000_000_000) by (nonlinear_arith)
            requires
                -100_000_000_000 <= v <= 700,
                0 <= dt <= 0xffff_ffff,
        ;
        let travel: i128 = (v as i128) * (dt as i128);
        let raw: i128 = self.y as i128 + travel;
        if raw <= GROUND_Y as i128 {
            self.y = GROUND_Y;
            if v < 0 {
                self.velocity = 0;
            } else {
                self.velocity = v;
            }
        } else {
            self.y = raw as i64;
            self.velocity = v;
        }
    }
}

/// A bounded energy bounds both the velocity and the height.
pub proof fn lemma_energy_bounds(p: Player)
    requires
        p.wf(),
    ensures
        -velocity_limit() <= p.velocity <= JUMP_VELOCITY,
        0 <= p.height() <= height_limit(),
{
    let v = p.velocity as int;
    let h = p.height();
    assert(v * v >= 0) by (nonlinear_arith);
    assert(v >= -3_500_000) by (nonlinear_arith)
        requires
            v * v <= 12_025_908_916_400,
    ;
}

/// A step keeps the player well formed: never below the ground, never faster
/// upwards than a jump, and within the energy bound.
pub proof fn lemma_step_keeps_wf(p: Player, jump: bool, dt: u32)
    requires
        p.wf(),
    ensures
        p.stepped(jump, dt).wf(),
        GROUND_Y <= p.stepped(jump, dt).y,
        p.raw_y(jump, dt) > GROUND_Y ==> p.stepped(jump, dt).y == p.raw_y(jump, dt),
        !p.lands(jump, dt) ==> p.stepped(jump, dt).velocity == p.step_velocity(jump, dt),
        -100_000_000_000 <= p.step_velocity(jump, dt) <= JUMP_VELOCITY,
        p.raw_y(jump, dt) <= GROUND_Y + height_limit(),
{
    lemma_energy_bounds(p);
    let v0 = p.velocity as int;
    let h0 = p.height();
    let v = p.step_velocity(jump, dt);
    let d = dt as int;
    let raw = p.raw_y(jump, dt);
    let q = p.stepped(jump, dt);
    assert(v * v >= 0) by (nonlinear_arith);
    if p.on_ground() {
        if v >= 0 {
            assert(v * v + 4 * (h0 + v * d) <= 490_000 + 4 * (100 + 700 * d) && v * d >= 0)
                by (nonlinear_arith)
                requires
                    0 <= v <= 700,
                    0 <= d,
                    h0 <= 100,
            ;
        } else {
            assert(v * d <= 0) by (nonlinear_arith)
                requires
                    v < 0,
                    0 <= d,
            ;
        }
    } else {
        assert(v * v + 4 * (h0 + v * d) == v0 * v0 + 4 * h0 - 4 * d * d && d * d >= 0)
            by (nonlinear_arith)
            requires
                v == v0 - 2 * d,
        ;
        if raw <= GROUND_Y {
            assert(v < 0) by (nonlinear_arith)
                requires
                    h0 + v * d <= 0,
                    h0 > 100,
                    d >= 0,
            ;
        }
    }
    if raw > GROUND_Y {
        assert(q.y == raw);
        assert(q.velocity == v);
        assert(q.energy() == v * v + 4 * (h0 + v * d));
    } else {
        assert(q.y == GROUND_Y);
        if v < 0 {
            assert(q.velocity == 0);
            assert(q.energy() == 0) by (nonlinear_arith)
                requires
                    q.velocity == 0,
                    q.height() == 0,
                    q.energy() == q.velocity * q.velocity + 4 * q.height(),
            ;
        } else {
            assert(q.velocity == v);
            assert(v * v <= 490_000) by (nonlinear_arith)
                requires
                    0 <= v <= 700,
            ;
        }
    }
}

/// A player at rest on the ground line stays exactly as it is through a step
/// of any length in which no jump is asked for.
pub proof fn lemma_rest_is_stable(p: Player, dt: u32)
    requires
        p.wf(),
        p.y == GROUND_Y,
        p.velocity == 0,
    ensures
        p.stepped(false, dt) == p,
{
    assert(p.velocity * dt == 0) by (nonlinear_arith)
        requires
            p.velocity == 0,
    ;
}

/// A jump asked for on the ground gives exactly the jump impulse, whatever the
/// velocity was before and however long the step is.
pub proof fn lemma_jump_gives_impulse(p: Player, dt: u32)
    requires
        p.wf(),
        p.on_ground(),
    ensures
        p.stepped(true, dt).velocity == JUMP_VELOCITY,
        p.stepped(true, dt).y == p.y + JUMP_VELOCITY * dt,
{
    lemma_step_keeps_wf(p, true, dt);
    assert(JUMP_VELOCITY * dt >= 0) by (nonlinear_arith);
}

/// Without a jump signal a standing player keeps its velocity: nothing but the
/// signal starts a jump.
pub proof fn lemma_no_signal_no_impulse(p: Player, dt: u32)
    requires
        p.wf(),
        p.on_ground(),
    ensures
        p.step_velocity(false, dt) == p.velocity,
{
}

/// In flight the jump signal is ignored: a key held down, or pressed again,
/// does not start a second jump.
pub proof fn lemma_jump_ignored_in_flight(p: Player, dt: u32)
    requires
        p.wf(),
        !p.on_ground(),
    ensures
        p.stepped(true, dt) == p.stepped(false, dt),
{
}

/// One press gives one impulse. After a jump from the ground that lifts the
/// player out of the standing band, the following step is the same whether
/// the signal is still raised or not, and it does not restore the impulse
/// unless it lasts no time at all.
pub proof fn lemma_one_impulse_per_press(p: Player, dt1: u32, dt2: u32)
    requires
        p.wf(),
        p.on_ground(),
        !p.stepped(true, dt1).on_ground(),
    ensures
        p.stepped(true, dt1).velocity == JUMP_VELOCITY,
        p.stepped(true, dt1).stepped(true, dt2) == p.stepped(true, dt1).stepped(false, dt2),
        dt2 > 0 ==> p.stepped(true, dt1).stepped(true, dt2).velocity < JUMP_VELOCITY,
{
    lemma_jump_gives_impulse(p, dt1);
    let q = p.stepped(true, dt1);
    lemma_step_keeps_wf(p, true, dt1);
    lemma_step_keeps_wf(q, true, dt2);
}

/// In flight, every step that takes time and does not end on the ground
/// strictly lowers the velocity, by gravity times the length of the step.
pub proof fn lemma_gravity_lowers_velocity(p: Player, jump: bool, dt: u32)
    requires
        p.wf(),
        !p.on_ground(),
        dt > 0,
        !p.lands(jump, dt),
    ensures
        p.stepped(jump, dt).velocity == p.velocity - GRAVITY_PER_MS * dt,
        p.stepped(jump, dt).velocity < p.velocity,
{
    lemma_step_keeps_wf(p, jump, dt);
}

/// A step that ends on the ground with a downward motion stops the fall.
pub proof fn lemma_landing_stops(p: Player, jump: bool, dt: u32)
    requires
        p.wf(),
        p.lands(jump, dt),
    ensures
        p.stepped(jump, dt).y == GROUND_Y,
        p.stepped(jump, dt).velocity == 0,
{
}

/// Through any run of steps the player stays well formed; in particular it is
/// never below the ground line.
pub proof fn lemma_never_below_ground(p: Player, steps: Seq<(bool, u32)>)
    requires
        p.wf(),
    ensures
        p.after(steps).wf(),
        p.after(steps).y >= GROUND_Y,
    decreases steps.len(),
{
    if steps.len() > 0 {
        lemma_never_below_ground(p, steps.drop_last());
        lemma_step_keeps_wf(p.after(steps.drop_last()), steps.last().0, steps.last().1);
    }
}

} // verus!
