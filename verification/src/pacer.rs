//! Spawn pacing: obstacles and coins appear at fixed intervals of scrolled
//! distance, not of time.

use vstd::prelude::*;
use vstd::arithmetic::div_mod::{lemma_fundamental_div_mod, lemma_fundamental_div_mod_converse};
use crate::units::{COIN_SPACING, OBSTACLE_SPACING};

verus! {

/// Distance scrolled in `dt` milliseconds at `speed` units per second, in
/// thousandths of a unit.
pub open spec fn travelled(speed: u32, dt: u32) -> nat {
    (speed * dt) as nat
}

/// Whether an accumulator at `acc` reaches `spacing` when `gain` is added.
pub open spec fn crosses(acc: nat, gain: nat, spacing: nat) -> bool {
    acc + gain >= spacing
}

/// The accumulator after `gain` is added: back at zero when the spacing was
/// reached, the sum otherwise.
pub open spec fn paced(acc: nat, gain: nat, spacing: nat) -> nat {
    if crosses(acc, gain, spacing) {
        0
    } else {
        acc + gain
    }
}

/// What a crossing throws away: the distance by which the sum exceeds the
/// spacing.
pub open spec fn overshoot(acc: nat, gain: nat, spacing: nat) -> nat {
    if crosses(acc, gain, spacing) {
        (acc + gain - spacing) as nat
    } else {
        0
    }
}

/// Sum of a run of gains.
pub open spec fn total(gains: Seq<nat>) -> nat
    decreases gains.len(),
{
    if gains.len() == 0 {
        0
    } else {
        total(gains.drop_last()) + gains.last()
    }
}

/// The accumulator after a run of gains, from `start`.
pub open spec fn acc_after(start: nat, gains: Seq<nat>, spacing: nat) -> nat
    decreases gains.len(),
{
    if gains.len() == 0 {
        start
    } else {
        paced(acc_after(start, gains.drop_last(), spacing), gains.last(), spacing)
    }
}

/// Number of spawn events in a run of gains, from `start`.
pub open spec fn events_after(start: nat, gains: Seq<nat>, spacing: nat) -> nat
    decreases gains.len(),
{
    if gains.len() == 0 {
        0
    } else {
        events_after(start, gains.drop_last(), spacing) + if crosses(
            acc_after(start, gains.drop_last(), spacing),
            gains.last(),
            spacing,
        ) {
            1nat
        } else {
            0nat
        }
    }
}

/// Distance thrown away by the crossings of a run of gains, from `start`.
pub open spec fn overshoot_after(start: nat, gains: Seq<nat>, spacing: nat) -> nat
    decreases gains.len(),
{
    if gains.len() == 0 {
        0
    } else {
        overshoot_after(start, gains.drop_last(), spacing) + overshoot(
            acc_after(start, gains.drop_last(), spacing),
            gains.last(),
            spacing,
        )
    }
}

/// A run of `n` equal gains.
pub open spec fn steady(gain: nat, n: nat) -> Seq<nat> {
    Seq::new(n, |i: int| gain)
}

/// Adds the distance of one step to an accumulator and says whether the
/// spacing was reached; if so the accumulator starts again from zero.
pub fn pace(acc: &mut u64, speed: u32, dt: u32, spacing: u64) -> (spawn: bool)
    ensures
        spawn == crosses(*old(acc) as nat, travelled(speed, dt), spacing as nat),
        *final(acc) == paced(*old(acc) as nat, travelled(speed, dt), spacing as nat),
{
    assert(0 <= speed * dt <= 0xffff_ffff * 0xffff_ffff) by (nonlinear_arith)
        requires
            0 <= speed <= 0xffff_ffff,
            0 <= dt <= 0xffff_ffff,
    ;
    let gain: u128 = (speed as u128) * (dt as u128);
    let sum: u128 = *acc as u128 + gain;
    if sum >= spacing as u128 {
        *acc = 0;
        true
    } else {
        *acc = sum as u64;
        false
    }
}

/// The two accumulators of a session, one for each kind of thing that is
/// spawned.
#[derive(Clone, Copy, Debug, PartialEq, Eq, Structural)]
pub struct SpawnerDistance {
    pub obstacle_dist: u64,
    pub coin_dist: u64,
}

impl SpawnerDistance {
    /// Both accumulators are below their spacing.
    pub open spec fn wf(self) -> bool {
        self.obstacle_dist < OBSTACLE_SPACING && self.coin_dist < COIN_SPACING
    }

    /// Both accumulators at zero.
    pub fn new() -> (s: SpawnerDistance)
        ensures
            s.wf(),
            s.obstacle_dist == 0,
            s.coin_dist == 0,
    {
        SpawnerDistance { obstacle_dist: 0, coin_dist: 0 }
    }

    /// Sets both accumulators back to zero.
    pub fn reset(&mut self)
        ensures
            final(self).obstacle_dist == 0,
            final(self).coin_dist == 0,
            final(self).wf(),
    {
        self.obstacle_dist = 0;
        self.coin_dist = 0;
    }

    /// Whether the next step of `dt` milliseconds at `speed` makes a coin due.
    pub fn coin_due(&self, speed: u32, dt: u32) -> (due: bool)
        ensures
            due == crosses(self.coin_dist as nat, travelled(speed, dt), COIN_SPACING as nat),
    {
        let mut acc: u64 = self.coin_dist;
        pace(&mut acc, speed, dt, COIN_SPACING)
    }

    /// Advances the obstacle accumulator by one step; true when an obstacle is
    /// due.
    pub fn advance_obstacles(&mut self, speed: u32, dt: u32) -> (spawn: bool)
        ensures
            spawn == crosses(
                old(self).obstacle_dist as nat,
                travelled(speed, dt),
                OBSTACLE_SPACING as nat,
            ),
            final(self).obstacle_dist == paced(
                old(self).obstacle_dist as nat,
                travelled(speed, dt),
                OBSTACLE_SPACING as nat,
            ),
            final(self).coin_dist == old(self).coin_dist,
            final(self).obstacle_dist < OBSTACLE_SPACING,
    {
        let mut acc: u64 = self.obstacle_dist;
        let spawn = pace(&mut acc, speed, dt, OBSTACLE_SPACING);
        self.obstacle_dist = acc;
        spawn
    }

    /// Advances the coin accumulator by one step; true when a coin is due.
    pub fn advance_coins(&mut self, speed: u32, dt: u32) -> (spawn: bool)
        ensures
            spawn == crosses(
                old(self).coin_dist as nat,
                travelled(speed, dt),
                COIN_SPACING as nat,
            ),
            final(self).coin_dist == paced(
                old(self).coin_dist as nat,
                travelled(speed, dt),
                COIN_SPACING as nat,
            ),
            final(self).obstacle_dist == old(self).obstacle_dist,
            final(self).coin_dist < COIN_SPACING,
    {
        let mut acc: u64 = self.coin_dist;
        let spawn = pace(&mut acc, speed, dt, COIN_SPACING);
        self.coin_dist = acc;
        spawn
    }
}

impl Default for SpawnerDistance {
    /// Both accumulators at zero.
    fn default() -> (s: SpawnerDistance)
        ensures
            s.wf(),
            s.obstacle_dist == 0,
            s.coin_dist == 0,
    {
        SpawnerDistance::new()
    }
}

/// After any gain the accumulator is below the spacing again, and a step gives
/// at most one event however large the gain is.
pub proof fn lemma_paced_below_spacing(acc: nat, gain: nat, spacing: nat)
    requires
        spacing > 0,
    ensures
        paced(acc, gain, spacing) < spacing,
{
}

/// Nothing is lost but what the crossings throw away: the start and the sum
/// of the gains are the spacing times the number of events, the distance
/// thrown away, and what the accumulator still holds.
pub proof fn lemma_distance_accounted(start: nat, gains: Seq<nat>, spacing: nat)
    ensures
        start + total(gains) == events_after(start, gains, spacing) * spacing + overshoot_after(
            start,
            gains,
            spacing,
        ) + acc_after(start, gains, spacing),
    decreases gains.len(),
{
    if gains.len() > 0 {
        let before = gains.drop_last();
        lemma_distance_accounted(start, before, spacing);
        let e = events_after(start, before, spacing);
        assert((e + 1) * spacing == e * spacing + spacing) by (nonlinear_arith);
    } else {
        assert(0 * spacing == 0) by (nonlinear_arith);
    }
}

/// From an empty accumulator, the number of events is the sum of the gains
/// divided by the spacing, rounded down, exactly when the distance thrown away
/// and the distance still held are together less than one spacing.
pub proof fn lemma_events_are_quotient(gains: Seq<nat>, spacing: nat)
    requires
        spacing > 0,
    ensures
        events_after(0, gains, spacing) == total(gains) / spacing <==> overshoot_after(
            0,
            gains,
            spacing,
        ) + acc_after(0, gains, spacing) < spacing,
{
    lemma_distance_accounted(0, gains, spacing);
    let e = events_after(0, gains, spacing) as int;
    let rest = (overshoot_after(0, gains, spacing) + acc_after(0, gains, spacing)) as int;
    let t = total(gains) as int;
    let s = spacing as int;
    if rest < s {
        lemma_fundamental_div_mod_converse(t, s, e, rest);
    }
    if e == t / s {
        lemma_fundamental_div_mod(t, s);
        assert(s * (t / s) == (t / s) * s) by (nonlinear_arith);
    }
}

/// At a steady gain that divides the spacing, a crossing lands exactly on the
/// spacing and throws nothing away, so the number of events after `n` steps is
/// the distance covered divided by the spacing, rounded down.
pub proof fn lemma_steady_events(gain: nat, n: nat, spacing: nat)
    requires
        gain > 0,
        spacing > 0,
        spacing % gain == 0,
    ensures
        overshoot_after(0, steady(gain, n), spacing) == 0,
        acc_after(0, steady(gain, n), spacing) % gain == 0,
        acc_after(0, steady(gain, n), spacing) < spacing,
        total(steady(gain, n)) == n * gain,
        events_after(0, steady(gain, n), spacing) == (n * gain) / spacing,
    decreases n,
{
    let run = steady(gain, n);
    if n == 0 {
        assert(0nat % gain == 0) by (nonlinear_arith)
            requires
                gain > 0,
        ;
        assert(n * gain == 0) by (nonlinear_arith)
            requires
                n == 0,
        ;
        assert(0int / (spacing as int) == 0) by (nonlinear_arith)
            requires
                spacing > 0,
        ;
    } else {
        let m = (n - 1) as nat;
        assert(run.drop_last() =~= steady(gain, m));
        assert(run.last() == gain);
        lemma_steady_events(gain, m, spacing);
        let acc = acc_after(0, steady(gain, m), spacing);
        lemma_multiple_step(acc as int, gain as int, spacing as int);
        assert(n * gain == m * gain + gain) by (nonlinear_arith)
            requires
                n == m + 1,
        ;
        lemma_paced_below_spacing(acc, gain, spacing);
        lemma_events_are_quotient(run, spacing);
    }
}

/// Of two multiples of `d`, the smaller plus `d` does not pass the larger, and
/// is a multiple again.
proof fn lemma_multiple_step(a: int, d: int, s: int)
    requires
        d > 0,
        0 <= a < s,
        a % d == 0,
        s % d == 0,
    ensures
        a + d <= s,
        (a + d) % d == 0,
        0int % d == 0,
{
    lemma_fundamental_div_mod(a, d);
    lemma_fundamental_div_mod(s, d);
    let qa = a / d;
    let qs = s / d;
    assert(qa < qs) by (nonlinear_arith)
        requires
            d * qa < d * qs,
            d > 0,
    ;
    assert(d * (qa + 1) <= d * qs) by (nonlinear_arith)
        requires
            qa + 1 <= qs,
            d > 0,
    ;
    assert(d * (qa + 1) == d * qa + d) by (nonlinear_arith);
    lemma_fundamental_div_mod_converse(a + d, d, qa + 1, 0);
    lemma_fundamental_div_mod_converse(0, d, 0, 0);
}

} // verus!
