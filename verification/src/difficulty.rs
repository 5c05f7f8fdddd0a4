//! The difficulty ramp: the scroll speed rises by a fixed step each time a
//! repeating interval completes, up to a ceiling.

use vstd::prelude::*;
use crate::units::{BASE_SPEED, MAX_SPEED, RAMP_INTERVAL_MS, SPEED_STEP};

verus! {

/// Number of intervals of `period` milliseconds that complete when a timer
/// that stands at `elapsed` is advanced by `dt`.
pub open spec fn completions(elapsed: u32, dt: u32, period: u32) -> int {
    (elapsed + dt) / (period as int)
}

/// Where a repeating timer stands after it was advanced by `dt`: it wraps
/// around at each completed interval.
pub open spec fn wrapped(elapsed: u32, dt: u32, period: u32) -> int {
    (elapsed + dt) % (period as int)
}

/// The speed after one completed interval: one step higher, unless it has
/// reached the ceiling already.
pub open spec fn raised(speed: int) -> int {
    if speed < MAX_SPEED {
        speed + SPEED_STEP
    } else {
        speed
    }
}

/// The speed after `k` completed intervals.
pub open spec fn ramped(speed: int, k: int) -> int {
    if speed + SPEED_STEP * k <= MAX_SPEED {
        speed + SPEED_STEP * k
    } else {
        MAX_SPEED as int
    }
}

/// Advances a repeating timer that stands at `elapsed`, within its interval,
/// by `dt` milliseconds. Returns the number of intervals completed and where
/// the timer stands then.
pub fn tick_repeating(elapsed: u32, dt: u32, period: u32) -> (r: (u32, u32))
    requires
        elapsed < period,
    ensures
        r.0 == completions(elapsed, dt, period),
        r.1 == wrapped(elapsed, dt, period),
        r.1 < period,
{
    let sum: u64 = elapsed as u64 + dt as u64;
    let wide: u64 = period as u64;
    let done: u64 = sum / wide;
    let rest: u64 = sum % wide;
    assert(done <= dt) by (nonlinear_arith)
        requires
            done == sum / wide,
            sum < wide + dt,
            wide >= 1,
            dt >= 0,
    ;
    (done as u32, rest as u32)
}

/// Scroll speed and the timer of the ramp.
#[derive(Clone, Copy, Debug, PartialEq, Eq, Structural)]
pub struct Difficulty {
    /// Scroll speed in units per second.
    pub speed: u32,
    /// Milliseconds since the last completed interval.
    pub elapsed_ms: u32,
}

impl Difficulty {
    /// The speed lies between base and ceiling, a whole number of steps above
    /// the base, and the timer is within its interval.
    pub open spec fn wf(self) -> bool {
        &&& BASE_SPEED <= self.speed <= MAX_SPEED
        &&& (self.speed - BASE_SPEED) % (SPEED_STEP as int) == 0
        &&& self.elapsed_ms < RAMP_INTERVAL_MS
    }

    /// The difficulty after a step of `dt` milliseconds.
    pub open spec fn ticked(self, dt: u32) -> Difficulty {
        Difficulty {
            speed: ramped(
                self.speed as int,
                completions(self.elapsed_ms, dt, RAMP_INTERVAL_MS),
            ) as u32,
            elapsed_ms: wrapped(self.elapsed_ms, dt, RAMP_INTERVAL_MS) as u32,
        }
    }

    /// The difficulty after a run of steps.
    pub open spec fn after(self, steps: Seq<u32>) -> Difficulty
        decreases steps.len(),
    {
        if steps.len() == 0 {
            self
        } else {
            self.after(steps.drop_last()).ticked(steps.last())
        }
    }

    /// Base speed, with the timer at the start of its interval.
    pub fn new() -> (d: Difficulty)
        ensures
            d.wf(),
            d.speed == BASE_SPEED,
            d.elapsed_ms == 0,
    {
        Difficulty { speed: BASE_SPEED, elapsed_ms: 0 }
    }

    /// Sets the speed back to the base speed and leaves the timer running.
    pub fn reset_speed(&mut self)
        requires
            old(self).wf(),
        ensures
            final(self).speed == BASE_SPEED,
            final(self).elapsed_ms == old(self).elapsed_ms,
            final(self).wf(),
    {
        self.speed = BASE_SPEED;
    }

    /// Advances the timer by one step and raises the speed by one step for each
    /// interval that completed, also where a long step completes several.
    /// Returns the number of completed intervals.
    pub fn advance(&mut self, dt: u32) -> (completed: u32)
        requires
            old(self).wf(),
        ensures
            *final(self) == old(self).ticked(dt),
            completed == completions(old(self).elapsed_ms, dt, RAMP_INTERVAL_MS),
            final(self).wf(),
            old(self).speed <= final(self).speed <= MAX_SPEED,
    {
        proof {
            lemma_tick_keeps_wf(*self, dt);
        }
        let (completed, rest) = tick_repeating(self.elapsed_ms, dt, RAMP_INTERVAL_MS);
        let room: u32 = (MAX_SPEED - self.speed) / SPEED_STEP;
        let steps: u32 = if completed < room {
            completed
        } else {
            room
        };
        self.speed = self.speed + SPEED_STEP * steps;
        self.elapsed_ms = rest;
        completed
    }
}

impl Default for Difficulty {
    /// Base speed, with the timer at the start of its interval.
    fn default() -> (d: Difficulty)
        ensures
            d.wf(),
            d.speed == BASE_SPEED,
            d.elapsed_ms == 0,
    {
        Difficulty::new()
    }
}

/// A step keeps the difficulty well formed and never lowers the speed.
pub proof fn lemma_tick_keeps_wf(d: Difficulty, dt: u32)
    requires
        d.wf(),
    ensures
        d.ticked(dt).wf(),
        d.speed <= d.ticked(dt).speed <= MAX_SPEED,
        completions(d.elapsed_ms, dt, RAMP_INTERVAL_MS) >= 0,
{
}

/// The closed form agrees with raising the speed once for each completed
/// interval.
pub proof fn lemma_ramped_is_repeated_raise(speed: int, k: int)
    requires
        BASE_SPEED <= speed <= MAX_SPEED,
        (speed - BASE_SPEED) % (SPEED_STEP as int) == 0,
        k >= 0,
    ensures
        ramped(speed, 0) == speed,
        ramped(speed, k + 1) == raised(ramped(speed, k)),
{
}

/// Over any run of steps the speed never falls and never passes the ceiling:
/// whatever steps follow a run, the speed after them is at least the speed
/// before them.
pub proof fn lemma_speed_never_falls(d: Difficulty, steps: Seq<u32>, more: Seq<u32>)
    requires
        d.wf(),
    ensures
        d.after(steps + more).wf(),
        d.after(steps).speed <= d.after(steps + more).speed <= MAX_SPEED,
    decreases more.len(),
{
    if more.len() == 0 {
        assert(steps + more =~= steps);
        lemma_run_keeps_wf(d, steps);
    } else {
        assert((steps + more).drop_last() =~= steps + more.drop_last());
        assert((steps + more).last() == more.last());
        lemma_speed_never_falls(d, steps, more.drop_last());
        lemma_tick_keeps_wf(d.after(steps + more.drop_last()), more.last());
    }
}

/// A run of steps keeps the difficulty well formed.
pub proof fn lemma_run_keeps_wf(d: Difficulty, steps: Seq<u32>)
    requires
        d.wf(),
    ensures
        d.after(steps).wf(),
        d.speed <= d.after(steps).speed,
    decreases steps.len(),
{
    if steps.len() > 0 {
        lemma_run_keeps_wf(d, steps.drop_last());
        lemma_tick_keeps_wf(d.after(steps.drop_last()), steps.last());
    }
}

} // verus!
