//! Security policy: the flags that say which protections are on. They are set
//! during boot and then live in the sealed `.rune` section.
use vstd::prelude::*;

verus! {

/// Which security features are in force.
#[derive(Debug, Clone, Copy, PartialEq, Eq, Structural)]
pub struct SecurityPolicy {
    pub capabilities_enabled: bool,
    pub wx_enforcement: bool,
    pub stack_canaries_enabled: bool,
    pub heap_canaries_enabled: bool,
    pub rune_sealed: bool,
    pub aslr_enabled: bool,
}

impl SecurityPolicy {
    /// The policy before boot configures it: everything off.
    pub fn new() -> (r: Self)
        ensures
            r == (SecurityPolicy {
                capabilities_enabled: false,
                wx_enforcement: false,
                stack_canaries_enabled: false,
                heap_canaries_enabled: false,
                rune_sealed: false,
                aslr_enabled: false,
            }),
    {
        SecurityPolicy {
            capabilities_enabled: false,
            wx_enforcement: false,
            stack_canaries_enabled: false,
            heap_canaries_enabled: false,
            rune_sealed: false,
            aslr_enabled: false,
        }
    }
}

/// Turn on every protection; the Rune's sealed flag is left to `mark_rune_sealed`.
pub fn init(policy: &mut SecurityPolicy)
    ensures
        *final(policy) == (SecurityPolicy {
            capabilities_enabled: true,
            wx_enforcement: true,
            stack_canaries_enabled: true,
            heap_canaries_enabled: true,
            rune_sealed: old(policy).rune_sealed,
            aslr_enabled: true,
        }),
{
    policy.capabilities_enabled = true;
    policy.wx_enforcement = true;
    policy.stack_canaries_enabled = true;
    policy.heap_canaries_enabled = true;
    policy.aslr_enabled = true;
}

/// Record that the Rune of Permanence has been sealed.
pub fn mark_rune_sealed(policy: &mut SecurityPolicy)
    ensures
        *final(policy) == (SecurityPolicy { rune_sealed: true, ..*old(policy) }),
{
    policy.rune_sealed = true;
}

} // verus!
