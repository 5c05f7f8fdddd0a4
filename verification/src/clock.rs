//! The step clock: turns the host's frame time, in nanoseconds, into the whole
//! milliseconds that a step takes, and carries the rest over to the next
//! frame so that no time is lost.

use vstd::prelude::*;

verus! {

/// Nanoseconds in one millisecond.
pub const NANOS_PER_MILLI: u32 = 1_000_000;

/// What is left of the frame times handed in so far: less than a millisecond.
#[derive(Clone, Copy, Debug, PartialEq, Eq, Structural)]
pub struct Clock {
    pub carry_ns: u32,
}

/// Whole milliseconds in what was carried over and the new frame time.
pub open spec fn whole_millis(carry_ns: u32, delta_ns: u64) -> int {
    (carry_ns + delta_ns) / (NANOS_PER_MILLI as int)
}

/// Nanoseconds left over beside the whole milliseconds.
pub open spec fn left_over(carry_ns: u32, delta_ns: u64) -> int {
    (carry_ns + delta_ns) % (NANOS_PER_MILLI as int)
}

/// Length of the step for a frame: the whole milliseconds, cut to the longest
/// step.
pub open spec fn step_length(carry_ns: u32, delta_ns: u64) -> int {
    if whole_millis(carry_ns, delta_ns) <= u32::MAX {
        whole_millis(carry_ns, delta_ns)
    } else {
        u32::MAX as int
    }
}

impl Clock {
    /// Less than a millisecond is carried.
    pub open spec fn wf(self) -> bool {
        self.carry_ns < NANOS_PER_MILLI
    }

    /// A clock that carries nothing.
    pub fn new() -> (c: Clock)
        ensures
            c.wf(),
            c.carry_ns == 0,
    {
        Clock { carry_ns: 0 }
    }

    /// Takes in a frame time and returns the length of the step in
    /// milliseconds. A frame too long for a step is cut to the longest step,
    /// and the clock then carries nothing; otherwise the time handed in is the
    /// time handed out plus what is carried.
    pub fn tick(&mut self, delta_ns: u64) -> (dt: u32)
        requires
            old(self).wf(),
        ensures
            final(self).wf(),
            dt == step_length(old(self).carry_ns, delta_ns),
            final(self).carry_ns == if whole_millis(old(self).carry_ns, delta_ns) <= u32::MAX {
                left_over(old(self).carry_ns, delta_ns)
            } else {
                0
            },
            whole_millis(old(self).carry_ns, delta_ns) <= u32::MAX ==> dt * NANOS_PER_MILLI
                + final(self).carry_ns == old(self).carry_ns + delta_ns,
    {
        let total: u128 = self.carry_ns as u128 + delta_ns as u128;
        let whole: u128 = total / (NANOS_PER_MILLI as u128);
        let rest: u128 = total % (NANOS_PER_MILLI as u128);
        if whole > u32::MAX as u128 {
            self.carry_ns = 0;
            u32::MAX
        } else {
            self.carry_ns = rest as u32;
            whole as u32
        }
    }
}

} // verus!
