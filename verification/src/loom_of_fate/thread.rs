//! Thread definitions - the Threads of Fate.
use vstd::prelude::*;
use super::context::{ThreadContext, context_with};
use super::vessel::VesselId;
use crate::mana_pool::entropy::{seeded_state_spec, seeded_u32, ChaCha8Rng};

verus! {

/// The sigil a generator seeded with `seed` gives: its first two 32-bit outputs,
/// the first in the high half.
pub open spec fn sigil_of_seed(seed: u64) -> int {
    (seeded_u32(seed, 0) as u64) * 0x1_0000_0000 + seeded_u32(seed, 1) as u64
}

/// A unique identifier for a thread.
#[derive(Debug, Clone, Copy, PartialEq, Eq, Structural, Hash)]
pub struct ThreadId(pub u64);

/// The state of a thread in its lifecycle.
#[derive(Debug, Clone, Copy, PartialEq, Eq, Structural)]
pub enum ThreadState {
    /// The thread is actively running.
    Weaving,
    /// The thread is idle, waiting for work.
    Resting,
    /// The thread is blocked or has encountered an error.
    Tangled,
    /// The thread is in the process of exiting.
    Fading,
}

/// Priority levels for threads, from most to least urgent.
#[derive(Debug, Clone, Copy, PartialEq, Eq, Structural)]
pub enum ThreadPriority {
    Critical,
    High,
    Normal,
    Low,
    Idle,
}

impl ThreadPriority {
    /// Numeric level of the priority: 0 (Critical) to 4 (Idle).
    pub fn level(&self) -> (r: u8)
        ensures
            r == match *self {
                ThreadPriority::Critical => 0u8,
                ThreadPriority::High => 1u8,
                ThreadPriority::Normal => 2u8,
                ThreadPriority::Low => 3u8,
                ThreadPriority::Idle => 4u8,
            },
    {
        match self {
            ThreadPriority::Critical => 0,
            ThreadPriority::High => 1,
            ThreadPriority::Normal => 2,
            ThreadPriority::Low => 3,
            ThreadPriority::Idle => 4,
        }
    }
}

/// A thread's resource consumption.
#[derive(Debug, Clone, Copy, Default)]
pub struct ResourceUsage {
    pub cpu_time: u64,
    pub memory_allocated: usize,
    pub messages_sent: u64,
}


/// A thread: its identity, scheduling state, saved registers and stack, and the
/// stack-canary value ("sigil") installed while it runs.
pub struct Thread {
    pub id: ThreadId,
    pub state: ThreadState,
    pub priority: ThreadPriority,
    /// Saved CPU state.
    pub context: ThreadContext,
    /// Lowest address of the thread's stack.
    pub stack_bottom: u64,
    /// Highest address of the thread's stack.
    pub stack_top: u64,
    /// The thread's stack-canary value.
    pub sigil: u64,
    /// The Vessel the thread belongs to; `None` for kernel threads.
    pub vessel_id: Option<VesselId>,
    pub resource_usage: ResourceUsage,
    /// Time slices the thread has been given.
    pub time_slices_used: u64,
    /// Times the thread gave up the CPU.
    pub yields: u64,
    /// Tick at which the thread last started running.
    pub last_run_time: u64,
}

/// Every field but the state agrees.
pub open spec fn same_but_state(a: Thread, b: Thread) -> bool {
    &&& a.id == b.id
    &&& a.priority == b.priority
    &&& a.context == b.context
    &&& a.stack_bottom == b.stack_bottom
    &&& a.stack_top == b.stack_top
    &&& a.sigil == b.sigil
    &&& a.vessel_id == b.vessel_id
    &&& a.time_slices_used == b.time_slices_used
    &&& a.yields == b.yields
    &&& a.last_run_time == b.last_run_time
}

impl Thread {
    /// A new Resting thread starting at `entry_point` on the stack
    /// `[stack_bottom, stack_top)`, with a fresh random sigil.
    pub fn new(
        id: ThreadId,
        entry_point: u64,
        priority: ThreadPriority,
        stack_bottom: u64,
        stack_top: u64,
        vessel_id: Option<VesselId>,
    ) -> (r: Self)
        ensures
            r.id == id,
            r.state == ThreadState::Resting,
            r.priority == priority,
            r.context == context_with(entry_point, 0x08, 0x202, stack_top, 0x10, 0),
            r.stack_bottom == stack_bottom,
            r.stack_top == stack_top,
            r.vessel_id == vessel_id,
            r.time_slices_used == 0 && r.yields == 0 && r.last_run_time == 0,
    {
        let context = ThreadContext::new(entry_point, stack_top);
        let sigil = Self::generate_sigil();
        Thread {
            id,
            state: ThreadState::Resting,
            priority,
            context,
            stack_bottom,
            stack_top,
            sigil,
            vessel_id,
            resource_usage: ResourceUsage { cpu_time: 0, memory_allocated: 0, messages_sent: 0 },
            time_slices_used: 0,
            yields: 0,
            last_run_time: 0,
        }
    }

    /// A random sigil: two 32-bit outputs of a freshly seeded generator, the first
    /// in the high half.
    fn generate_sigil() -> (r: u64)
        ensures
            exists|seed: u64| #[trigger] sigil_of_seed(seed) == r,
    {
        let mut rng = ChaCha8Rng::from_hardware_fast();
        let ghost seed = choose|seed: u64| #[trigger] seeded_state_spec(seed, 0) == rng.spec_state();
        let high = rng.next_u32() as u64;
        let low = rng.next_u32() as u64;
        assert(high == seeded_u32(seed, 0) && low == seeded_u32(seed, 1));
        assert((high << 32u64) | low == high * 0x1_0000_0000 + low) by (bit_vector)
            requires
                high < 0x1_0000_0000,
                low < 0x1_0000_0000,
        ;
        assert(sigil_of_seed(seed) == (high << 32u64) | low);
        (high << 32u64) | low
    }

    /// A new Resting thread with a prepared context (user or service threads, whose
    /// stacks are not tracked here) and a fresh random sigil.
    pub fn new_with_context(
        id: ThreadId,
        context: ThreadContext,
        priority: ThreadPriority,
        vessel_id: Option<VesselId>,
    ) -> (r: Self)
        ensures
            r.id == id,
            r.state == ThreadState::Resting,
            r.priority == priority,
            r.context == context,
            r.stack_bottom == 0 && r.stack_top == 0,
            r.vessel_id == vessel_id,
            r.time_slices_used == 0 && r.yields == 0 && r.last_run_time == 0,
    {
        let sigil = Self::generate_sigil();
        Thread {
            id,
            state: ThreadState::Resting,
            priority,
            context,
            stack_bottom: 0,
            stack_top: 0,
            sigil,
            vessel_id,
            resource_usage: ResourceUsage { cpu_time: 0, memory_allocated: 0, messages_sent: 0 },
            time_slices_used: 0,
            yields: 0,
            last_run_time: 0,
        }
    }

    /// The saved CPU state.
    pub fn context(&self) -> (r: &ThreadContext)
        ensures
            *r == self.context,
    {
        &self.context
    }

    /// The thread's identifier.
    pub fn id(&self) -> (r: ThreadId)
        ensures
            r == self.id,
    {
        self.id
    }

    /// The thread's state.
    pub fn state(&self) -> (r: ThreadState)
        ensures
            r == self.state,
    {
        self.state
    }

    /// Change the thread's state.
    pub fn set_state(&mut self, state: ThreadState)
        ensures
            final(self).state == state,
            same_but_state(*final(self), *old(self)),
    {
        self.state = state;
    }

    /// The thread's priority.
    pub fn priority(&self) -> (r: ThreadPriority)
        ensures
            r == self.priority,
    {
        self.priority
    }

    /// Count a time slice given to the thread.
    pub fn record_time_slice(&mut self)
        requires
            old(self).time_slices_used < u64::MAX,
        ensures
            final(self).time_slices_used == old(self).time_slices_used + 1,
            final(self).id == old(self).id,
            final(self).state == old(self).state,
            final(self).sigil == old(self).sigil,
            final(self).vessel_id == old(self).vessel_id,
            final(self).yields == old(self).yields,
            final(self).last_run_time == old(self).last_run_time,
    {
        self.time_slices_used = self.time_slices_used + 1;
    }

    /// Count a voluntary yield of the thread.
    pub fn record_yield(&mut self)
        requires
            old(self).yields < u64::MAX,
        ensures
            final(self).yields == old(self).yields + 1,
            final(self).id == old(self).id,
            final(self).state == old(self).state,
            final(self).sigil == old(self).sigil,
            final(self).vessel_id == old(self).vessel_id,
            final(self).time_slices_used == old(self).time_slices_used,
            final(self).last_run_time == old(self).last_run_time,
    {
        self.yields = self.yields + 1;
    }

    /// The thread's resource consumption.
    pub fn resource_usage(&self) -> (r: &ResourceUsage)
        ensures
            *r == self.resource_usage,
    {
        &self.resource_usage
    }

    /// Replace the thread's resource consumption figures.
    pub fn update_resource_usage(&mut self, usage: ResourceUsage)
        ensures
            final(self).resource_usage == usage,
            same_but_state(*final(self), *old(self)),
            final(self).state == old(self).state,
    {
        self.resource_usage = usage;
    }

    /// The Vessel the thread belongs to.
    pub fn vessel_id(&self) -> (r: Option<VesselId>)
        ensures
            r == self.vessel_id,
    {
        self.vessel_id
    }

    /// Move the thread to another Vessel (or make it a kernel thread).
    pub fn set_vessel_id(&mut self, vessel_id: Option<VesselId>)
        ensures
            final(self).vessel_id == vessel_id,
            final(self).id == old(self).id,
            final(self).state == old(self).state,
            final(self).sigil == old(self).sigil,
    {
        self.vessel_id = vessel_id;
    }
}

} // verus!
