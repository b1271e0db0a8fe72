//! Stack protection: the guard value the compiler's stack canaries are checked
//! against. Each thread has its own value, installed before it runs.
use vstd::prelude::*;

verus! {

/// The guard value before any thread installs its own.
pub const DEFAULT_STACK_GUARD: u64 = 0xDEADBEEF_CAFEBABE;

/// The current stack guard value.
pub struct StackGuard {
    value: u64,
}

impl StackGuard {
    pub closed spec fn spec_value(&self) -> u64 {
        self.value
    }

    /// The guard holding the default value.
    pub fn new() -> (r: Self)
        ensures
            r.spec_value() == DEFAULT_STACK_GUARD,
    {
        StackGuard { value: DEFAULT_STACK_GUARD }
    }
}

/// Install the canary of the thread about to run.
pub fn set_current_canary(guard: &mut StackGuard, sigil: u64)
    ensures
        final(guard).spec_value() == sigil,
{
    guard.value = sigil;
}

/// The canary currently in force.
pub fn get_current_canary(guard: &StackGuard) -> (r: u64)
    ensures
        r == guard.spec_value(),
{
    guard.value
}

} // verus!
