//! What obstacles do to the player: a hit costs one point of health and
//! opens a grace period, and the last point of health ends the run.
//!
//! Coins are the other thing the player meets: each coin in reach adds one to
//! the score and is removed at the end of the step.
//!
//! A hit leaves the obstacle in place. While the grace period runs the player
//! takes no damage; once it is over the first overlap counts, and since it
//! opens the next grace period at once, one step costs at most one point.

use vstd::prelude::*;
use crate::player::Player;
use crate::units::INVULNERABLE_MS;
use crate::world::{coins_in_reach, obstacle_in_reach, picked, World};

verus! {

/// Whether the player is within a grace period.
pub open spec fn shielded(p: Player) -> bool {
    p.invulnerable_ms > 0
}

/// What is left of a grace period of `left` milliseconds after `dt` more.
pub open spec fn run_down(left: u32, dt: u32) -> u32 {
    if dt >= left {
        0
    } else {
        (left - dt) as u32
    }
}

/// Whether a step takes the player's last point of health: the player is
/// unshielded, overlaps an obstacle, and has at most one point left.
pub open spec fn downed(p: Player, hit: bool) -> bool {
    !shielded(p) && hit && p.health <= 1
}

/// The player after the obstacles of one step were resolved. `hit` says
/// whether some obstacle overlaps the player.
pub open spec fn struck(p: Player, hit: bool, dt: u32) -> Player {
    if shielded(p) {
        Player { invulnerable_ms: run_down(p.invulnerable_ms, dt), ..p }
    } else if hit && p.health > 1 {
        Player { health: (p.health - 1) as u32, invulnerable_ms: INVULNERABLE_MS, ..p }
    } else if hit {
        Player { health: 0, ..p }
    } else {
        p
    }
}

/// Outcome of resolving the obstacles of one step.
#[derive(Clone, Copy, Debug, PartialEq, Eq, Structural)]
pub struct Impact {
    /// The player was within a grace period, which ran on.
    pub shielded: bool,
    /// The player lost a point of health.
    pub hurt: bool,
    /// The player has no health left.
    pub down: bool,
}

/// Resolves the player against the obstacles of the world for a step of `dt`
/// milliseconds.
pub fn check_collisions(player: &mut Player, world: &World, dt: u32) -> (impact: Impact)
    requires
        old(player).wf(),
    ensures
        *final(player) == struck(
            *old(player),
            obstacle_in_reach(world.entities@, old(player).x, old(player).y),
            dt,
        ),
        final(player).wf(),
        impact.shielded == shielded(*old(player)),
        impact.hurt == (final(player).health < old(player).health),
        impact.down == downed(
            *old(player),
            obstacle_in_reach(world.entities@, old(player).x, old(player).y),
        ),
{
    if player.invulnerable_ms > 0 {
        if dt >= player.invulnerable_ms {
            player.invulnerable_ms = 0;
        } else {
            player.invulnerable_ms = player.invulnerable_ms - dt;
        }
        return Impact { shielded: true, hurt: false, down: false };
    }
    if !world.hits_obstacle(player.x, player.y) {
        return Impact { shielded: false, hurt: false, down: false };
    }
    if player.health > 1 {
        player.health = player.health - 1;
        player.invulnerable_ms = INVULNERABLE_MS;
        Impact { shielded: false, hurt: true, down: false }
    } else {
        let hurt: bool = player.health == 1;
        player.health = 0;
        Impact { shielded: false, hurt, down: true }
    }
}

/// Gathers the coins within reach of the player: each adds one to the score
/// and is marked for removal. Returns their number. The score must have room
/// for them.
pub fn collect_coins(player: &Player, world: &mut World, score: &mut u32) -> (n: u32)
    requires
        old(world).wf(),
        *old(score) + coins_in_reach(old(world).entities@, player.x, player.y) <= u32::MAX,
    ensures
        final(world).wf(),
        n == coins_in_reach(old(world).entities@, player.x, player.y),
        *final(score) == *old(score) + n,
        final(world).entities@ == picked(old(world).entities@, player.x, player.y),
        final(world).queued@ == old(world).queued@,
        final(world).next_id == old(world).next_id,
{
    let found: usize = world.collect_coins(player.x, player.y);
    let n: u32 = found as u32;
    *score = *score + n;
    n
}

/// A step costs at most one point of health, and none within a grace period.
pub proof fn lemma_at_most_one_point(p: Player, hit: bool, dt: u32)
    ensures
        struck(p, hit, dt).health <= p.health,
        p.health - struck(p, hit, dt).health <= 1,
        shielded(p) ==> struck(p, hit, dt).health == p.health,
        struck(p, hit, dt).health < p.health ==> hit && !shielded(p),
{
}

/// A hit that leaves health opens the full grace period; the hit that takes
/// the last point opens none.
pub proof fn lemma_hit_opens_grace(p: Player, dt: u32)
    requires
        !shielded(p),
        p.health >= 1,
    ensures
        p.health > 1 ==> struck(p, true, dt).invulnerable_ms == INVULNERABLE_MS,
        p.health == 1 ==> downed(p, true) && struck(p, true, dt).health == 0,
{
}

} // verus!
