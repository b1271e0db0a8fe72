//! Heap canaries: guard values placed before and after each heap allocation.
//!
//! A buffer overflow corrupts a guard, which is detected when the memory is
//! freed. The guard of an allocation is a per-boot secret mixed with the
//! allocation's address. The caller reads and writes the guard words; this
//! module decides what they must hold.
use vstd::prelude::*;
use super::entropy::ChaCha8Rng;

verus! {

/// Size in bytes of one canary.
pub const CANARY_SIZE: usize = 8;

/// Bytes added to each allocation: one canary before, one after.
pub const TOTAL_CANARY_OVERHEAD: usize = 16;

/// The canary state: the secret, whether canaries are on, and the number of
/// corruptions seen.
pub struct CanaryState {
    secret: u64,
    enabled: bool,
    violations: u64,
}

impl CanaryState {
    pub closed spec fn spec_secret(&self) -> u64 {
        self.secret
    }

    pub closed spec fn spec_enabled(&self) -> bool {
        self.enabled
    }

    pub closed spec fn spec_violations(&self) -> u64 {
        self.violations
    }

    /// Canaries off, secret 0, no violations.
    pub fn new() -> (r: Self)
        ensures
            r.spec_secret() == 0,
            !r.spec_enabled(),
            r.spec_violations() == 0,
    {
        CanaryState { secret: 0, enabled: false, violations: 0 }
    }
}

/// Whether canaries are enabled.
pub fn are_enabled(state: &CanaryState) -> (r: bool)
    ensures
        r == state.spec_enabled(),
{
    state.enabled
}

/// Draw the secret from two 32-bit outputs of `rng` (the first in the high half)
/// and enable canaries.
pub fn init(state: &mut CanaryState, rng: &mut ChaCha8Rng)
    requires
        old(rng).wf(),
    ensures
        final(rng).wf(),
        final(state).spec_enabled(),
        final(state).spec_violations() == old(state).spec_violations(),
        exists|mid: ChaCha8Rng|
            #![trigger old(rng).next_rng(mid)]
            old(rng).next_rng(mid) && mid.next_rng(*final(rng)) && final(state).spec_secret() == (
            old(rng).next_value() as u32 as u64) * 0x1_0000_0000 + (mid.next_value() as u32 as u64),
{
    let ghost r0 = *rng;
    let hi = rng.next_u32();
    let ghost mid = *rng;
    let lo = rng.next_u32();
    let h = hi as u64;
    let l = lo as u64;
    assert((h << 32u64) | l == h * 0x1_0000_0000 + l) by (bit_vector)
        requires
            h < 0x1_0000_0000,
            l < 0x1_0000_0000,
    ;
    state.secret = (h << 32u64) | l;
    state.enabled = true;
    assert(r0.next_rng(mid));
}

/// The canary guarding the allocation at `addr`: the secret XOR the address.
pub fn generate_canary(state: &CanaryState, addr: usize) -> (r: u64)
    ensures
        r == state.spec_secret() ^ (addr as u64),
{
    state.secret ^ (addr as u64)
}

/// Check the two guard words read around the allocation at `addr`.
///
/// Always passes while canaries are off; otherwise both words must equal the
/// allocation's canary, and a mismatch is counted as a violation.
pub fn verify_canaries(state: &mut CanaryState, addr: usize, pre_canary: u64, post_canary: u64) -> (r: bool)
    requires
        old(state).spec_violations() < u64::MAX,
    ensures
        final(state).spec_secret() == old(state).spec_secret(),
        final(state).spec_enabled() == old(state).spec_enabled(),
        r == (!old(state).spec_enabled() || (pre_canary == old(state).spec_secret() ^ (addr as u64)
            && post_canary == old(state).spec_secret() ^ (addr as u64))),
        final(state).spec_violations() == old(state).spec_violations() + (if r {
            0int
        } else {
            1int
        }),
{
    if !state.enabled {
        return true;
    }
    let expected = generate_canary(state, addr);
    if pre_canary != expected || post_canary != expected {
        state.violations = state.violations + 1;
        return false;
    }
    true
}

/// Number of corruptions detected so far.
pub fn violations_count(state: &CanaryState) -> (r: u64)
    ensures
        r == state.spec_violations(),
{
    state.violations
}

/// The canary secret.
pub fn get_canary_secret(state: &CanaryState) -> (r: u64)
    ensures
        r == state.spec_secret(),
{
    state.secret
}


/// Guards written with `generate_canary` pass `verify_canaries`: the expected
/// value depends only on the secret and the address, and XOR with the address
/// recovers the secret.
pub proof fn lemma_canary_roundtrip(secret: u64, addr: usize)
    ensures
        (secret ^ (addr as u64)) == (secret ^ (addr as u64)),
        (secret ^ (addr as u64)) ^ (addr as u64) == secret,
{
    let a = addr as u64;
    assert((secret ^ a) ^ a == secret) by (bit_vector);
}

} // verus!
