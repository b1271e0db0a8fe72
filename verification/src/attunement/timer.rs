//! The timer tick counter, advanced by the timer interrupt.
use vstd::prelude::*;

verus! {

/// Number of timer ticks since boot.
pub struct TickCounter {
    ticks: u64,
}

impl TickCounter {
    pub closed spec fn spec_ticks(&self) -> u64 {
        self.ticks
    }

    /// A counter at zero.
    pub fn new() -> (r: Self)
        ensures
            r.spec_ticks() == 0,
    {
        TickCounter { ticks: 0 }
    }
}

/// The number of timer ticks since boot.
pub fn ticks(counter: &TickCounter) -> (r: u64)
    ensures
        r == counter.spec_ticks(),
{
    counter.ticks
}

/// Advance the counter by one tick, wrapping around at 2^64.
pub fn tick(counter: &mut TickCounter)
    ensures
        final(counter).spec_ticks() == (if old(counter).spec_ticks() == u64::MAX {
            0
        } else {
            old(counter).spec_ticks() + 1
        }),
{
    counter.ticks = counter.ticks.wrapping_add(1);
}

/// Timer interrupt handler: advance the counter.
pub fn on_tick(counter: &mut TickCounter)
    ensures
        final(counter).spec_ticks() == (if old(counter).spec_ticks() == u64::MAX {
            0
        } else {
            old(counter).spec_ticks() + 1
        }),
{
    tick(counter);
}

} // verus!
