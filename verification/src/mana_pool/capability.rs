//! Capability-based security for memory access.
use vstd::prelude::*;
use super::object_manager::ObjectHandle;

verus! {

/// A capability grants specific rights to an object.
#[derive(Debug, Clone, Copy, PartialEq, Eq, Structural)]
pub struct Capability {
    pub handle: ObjectHandle,
    pub rights: CapabilityRights,
}

impl Capability {
    pub fn new(handle: ObjectHandle, rights: CapabilityRights) -> (r: Self)
        ensures
            r.handle == handle,
            r.rights == rights,
    {
        Capability { handle, rights }
    }

    /// Check if this capability grants read access.
    pub fn can_read(&self) -> (r: bool)
        ensures
            r == (self.rights.bits & 0b0001u32 == 0b0001u32),
    {
        self.rights.contains(CapabilityRights::READ())
    }

    /// Check if this capability grants write access.
    pub fn can_write(&self) -> (r: bool)
        ensures
            r == (self.rights.bits & 0b0010u32 == 0b0010u32),
    {
        self.rights.contains(CapabilityRights::WRITE())
    }

    /// Check if this capability grants execute access.
    pub fn can_execute(&self) -> (r: bool)
        ensures
            r == (self.rights.bits & 0b0100u32 == 0b0100u32),
    {
        self.rights.contains(CapabilityRights::EXECUTE())
    }

    /// Check if this capability can be transferred to another process.
    pub fn can_transfer(&self) -> (r: bool)
        ensures
            r == (self.rights.bits & 0b1000u32 == 0b1000u32),
    {
        self.rights.contains(CapabilityRights::TRANSFER())
    }
}

/// Rights that can be granted to a capability: a set of bit flags.
#[derive(Debug, Clone, Copy, PartialEq, Eq, Structural)]
pub struct CapabilityRights {
    pub bits: u32,
}

impl CapabilityRights {
    /// The read right.
    #[allow(non_snake_case)]
    pub fn READ() -> (r: CapabilityRights)
        ensures
            r.bits == 0b0001u32,
    {
        CapabilityRights { bits: 0b0001 }
    }

    /// The write right.
    #[allow(non_snake_case)]
    pub fn WRITE() -> (r: CapabilityRights)
        ensures
            r.bits == 0b0010u32,
    {
        CapabilityRights { bits: 0b0010 }
    }

    /// The execute right.
    #[allow(non_snake_case)]
    pub fn EXECUTE() -> (r: CapabilityRights)
        ensures
            r.bits == 0b0100u32,
    {
        CapabilityRights { bits: 0b0100 }
    }

    /// The transfer right.
    #[allow(non_snake_case)]
    pub fn TRANSFER() -> (r: CapabilityRights)
        ensures
            r.bits == 0b1000u32,
    {
        CapabilityRights { bits: 0b1000 }
    }


    /// Whether every right of `other` is in `self`.
    pub open spec fn spec_contains(self, other: Self) -> bool {
        self.bits & other.bits == other.bits
    }

    pub fn bits(&self) -> (r: u32)
        ensures
            r == self.bits,
    {
        self.bits
    }

    /// Whether every right of `other` is also in `self`.
    pub fn contains(&self, other: Self) -> (r: bool)
        ensures
            r == self.spec_contains(other),
    {
        self.bits & other.bits == other.bits
    }

    /// The union of two sets of rights.
    pub fn union(self, other: Self) -> (r: Self)
        ensures
            r.bits == self.bits | other.bits,
    {
        CapabilityRights { bits: self.bits | other.bits }
    }

    /// Validate W^X (Write XOR Execute): true unless both WRITE and EXECUTE are present.
    pub fn validate_wx(&self) -> (r: bool)
        ensures
            r == !(self.bits & 0b0010u32 == 0b0010u32 && self.bits & 0b0100u32 == 0b0100u32),
    {
        let has_write = self.contains(Self::WRITE());
        let has_execute = self.contains(Self::EXECUTE());
        !(has_write && has_execute)
    }
}

impl CapabilityRights {
    /// Full rights (read, write, transfer); never execute, so that W^X holds.
    pub fn full() -> (r: Self)
        ensures
            r.bits == 0b1011u32,
    {
        CapabilityRights { bits: 0b1011 }
    }

    /// Read-only rights.
    pub fn read_only() -> (r: Self)
        ensures
            r.bits == 0b0001u32,
    {
        Self::READ()
    }

    /// Read-write rights (for data pages).
    pub fn read_write() -> (r: Self)
        ensures
            r.bits == 0b0011u32,
    {
        CapabilityRights { bits: 0b0011 }
    }

    /// Read-execute rights (for code pages).
    pub fn read_execute() -> (r: Self)
        ensures
            r.bits == 0b0101u32,
    {
        CapabilityRights { bits: 0b0101 }
    }

    /// Executable code with transfer capability.
    pub fn code_with_transfer() -> (r: Self)
        ensures
            r.bits == 0b1101u32,
    {
        CapabilityRights { bits: 0b1101 }
    }
}

/// Opaque identifier of a capability in a capability table.
#[derive(Debug, Clone, Copy, PartialEq, Eq, Structural)]
pub struct CapabilityId(pub u64);

impl CapabilityId {
    pub fn new(id: u64) -> (r: Self)
        ensures
            r.0 == id,
    {
        CapabilityId(id)
    }
}

/// The identifier a sealed capability for `handle` with `rights` receives.
pub open spec fn capability_id_of(handle: u64, rights: u32) -> u64 {
    (handle << 4u64) | ((rights & 0xFu32) as u64)
}

/// The integrity word kept with a sealed capability.
pub open spec fn seal_of(id: u64, handle: u64, rights: u32) -> u64 {
    id ^ (handle ^ 0x5EA1_5EA1_5EA1_5EA1u64) ^ ((rights as u64) << 32u64)
}

/// A capability bound to its identifier and protected by an integrity seal.
#[derive(Debug, Clone, Copy, PartialEq, Eq, Structural)]
pub struct SealedCapability {
    pub id: CapabilityId,
    pub handle: ObjectHandle,
    pub rights: CapabilityRights,
    pub seal: u64,
}

impl SealedCapability {
    /// Whether the seal matches the capability's contents.
    pub open spec fn spec_valid(self) -> bool {
        self.seal == seal_of(self.id.0, self.handle.0, self.rights.bits)
    }

    /// The sealed capability `new` creates.
    pub open spec fn new_spec(handle: ObjectHandle, rights: CapabilityRights) -> Self {
        let id = capability_id_of(handle.0, rights.bits);
        SealedCapability { id: CapabilityId(id), handle, rights, seal: seal_of(id, handle.0, rights.bits) }
    }

    /// Create and seal a capability.
    pub fn new(handle: ObjectHandle, rights: CapabilityRights) -> (r: Self)
        ensures
            r == Self::new_spec(handle, rights),
            r.handle == handle,
            r.rights == rights,
            r.id.0 == capability_id_of(handle.0, rights.bits),
            r.spec_valid(),
    {
        let id = (handle.0 << 4u64) | ((rights.bits & 0xF) as u64);
        let seal = id ^ (handle.0 ^ 0x5EA1_5EA1_5EA1_5EA1u64) ^ ((rights.bits as u64) << 32u64);
        SealedCapability { id: CapabilityId(id), handle, rights, seal }
    }

    /// Check the seal against the capability's contents.
    pub fn validate(&self) -> (r: bool)
        ensures
            r == self.spec_valid(),
    {
        self.seal == self.id.0 ^ (self.handle.0 ^ 0x5EA1_5EA1_5EA1_5EA1u64) ^ ((self.rights.bits as u64) << 32u64)
    }

    /// Derive a capability for the same object with attenuated rights.
    /// Rights can only be reduced, and the result must respect W^X.
    pub fn derive(&self, new_rights: CapabilityRights) -> (r: Self)
        requires
            self.rights.spec_contains(new_rights),
            !(new_rights.bits & 0b0010u32 == 0b0010u32 && new_rights.bits & 0b0100u32 == 0b0100u32),
        ensures
            r == Self::new_spec(self.handle, new_rights),
            r.handle == self.handle,
            r.rights == new_rights,
            r.id.0 == capability_id_of(self.handle.0, new_rights.bits),
            r.spec_valid(),
    {
        SealedCapability::new(self.handle, new_rights)
    }
}

impl core::ops::BitOr for CapabilityRights {
    type Output = CapabilityRights;

    fn bitor(self, rhs: CapabilityRights) -> (r: CapabilityRights)
        ensures
            r.bits == self.bits | rhs.bits,
    {
        CapabilityRights { bits: self.bits | rhs.bits }
    }
}

impl vstd::std_specs::ops::BitOrSpecImpl for CapabilityRights {
    open spec fn obeys_bitor_spec() -> bool {
        true
    }

    open spec fn bitor_req(self, rhs: CapabilityRights) -> bool {
        true
    }

    open spec fn bitor_spec(self, rhs: CapabilityRights) -> CapabilityRights {
        CapabilityRights { bits: self.bits | rhs.bits }
    }
}

} // verus!
