//! Sanctuary: long-lived, stable memory handed out by a bump pointer.
use vstd::prelude::*;
use super::ManaError;

verus! {

/// Size of the Sanctuary region: 16 MB.
pub const SANCTUARY_SIZE: usize = 0x100_0000;

/// Base address of the Sanctuary region.
pub const SANCTUARY_BASE: usize = 0x1000_0000;

/// The Sanctuary: a region from which memory is handed out and never returned.
pub struct Sanctuary {
    base_address: usize,
    total_size: usize,
    used_size: usize,
}

impl Sanctuary {
    /// Bytes handed out so far.
    pub closed spec fn spec_used(&self) -> nat {
        self.used_size as nat
    }

    /// The region's base address.
    pub closed spec fn spec_base(&self) -> nat {
        self.base_address as nat
    }

    /// The region's size.
    pub closed spec fn spec_total(&self) -> nat {
        self.total_size as nat
    }

    /// Invariant: usage within the region, the region within the address space.
    pub open spec fn wf(&self) -> bool {
        &&& self.spec_base() == SANCTUARY_BASE
        &&& self.spec_total() == SANCTUARY_SIZE
        &&& self.spec_used() <= self.spec_total()
        &&& self.spec_base() + self.spec_total() <= usize::MAX
    }

    /// An empty Sanctuary at the fixed base.
    pub fn new() -> (r: Self)
        ensures
            r.wf(),
            r.spec_base() == SANCTUARY_BASE,
            r.spec_total() == SANCTUARY_SIZE,
            r.spec_used() == 0,
    {
        Sanctuary { base_address: SANCTUARY_BASE, total_size: SANCTUARY_SIZE, used_size: 0 }
    }

    /// Hand out `size` bytes at the current end of the used part; fails with
    /// `OutOfMemory` when fewer than `size` bytes are left.
    pub fn allocate(&mut self, size: usize) -> (r: Result<usize, ManaError>)
        requires
            old(self).wf(),
        ensures
            final(self).wf(),
            final(self).spec_base() == old(self).spec_base(),
            final(self).spec_total() == old(self).spec_total(),
            size > old(self).spec_total() - old(self).spec_used() ==> r == Err::<usize, ManaError>(
                ManaError::OutOfMemory,
            ) && final(self).spec_used() == old(self).spec_used(),
            size <= old(self).spec_total() - old(self).spec_used() ==> r == Ok::<usize, ManaError>(
                (old(self).spec_base() + old(self).spec_used()) as usize,
            ) && final(self).spec_used() == old(self).spec_used() + size,
    {
        if size > self.total_size - self.used_size {
            return Err(ManaError::OutOfMemory);
        }
        let address = self.base_address + self.used_size;
        self.used_size = self.used_size + size;
        Ok(address)
    }

    /// Bytes handed out so far.
    pub fn used_bytes(&self) -> (r: usize)
        ensures
            r == self.spec_used(),
    {
        self.used_size
    }

    /// Size of the region.
    pub fn total_bytes(&self) -> (r: usize)
        ensures
            r == self.spec_total(),
    {
        self.total_size
    }
}

impl Default for Sanctuary {
    fn default() -> (r: Self)
        ensures
            r.wf(),
            r.spec_base() == SANCTUARY_BASE,
            r.spec_total() == SANCTUARY_SIZE,
            r.spec_used() == 0,
    {
        Sanctuary::new()
    }
}

/// Law: every Sanctuary reached from `new` through `allocate` lies at the fixed
/// base with the fixed 16 MB size, and its used part never exceeds it; what one
/// allocation hands out ends where the next one begins.
pub proof fn lemma_sanctuary_layout(s0: Sanctuary, s1: Sanctuary, size: usize, r: Result<usize, ManaError>)
    requires
        s0.wf(),
        s1.wf(),
        r is Ok,
        r == Ok::<usize, ManaError>((s0.spec_base() + s0.spec_used()) as usize),
        s1.spec_used() == s0.spec_used() + size,
    ensures
        s0.spec_base() == SANCTUARY_BASE && s0.spec_total() == SANCTUARY_SIZE,
        s0.spec_used() <= SANCTUARY_SIZE,
        r->Ok_0 + size == s1.spec_base() + s1.spec_used(),
{
}

} // verus!
