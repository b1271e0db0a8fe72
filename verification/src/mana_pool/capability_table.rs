//! Capability Table - opaque handle mapping.
//!
//! User space only sees `CapabilityId` numbers; the kernel keeps the mapping from
//! identifier to sealed capability, and every lookup validates the seal.
use vstd::prelude::*;
use std::collections::BTreeMap;
use super::capability::{CapabilityId, CapabilityRights, SealedCapability};
use super::object_manager::ObjectHandle;

verus! {

/// Errors that can occur during capability table operations.
#[derive(Debug, Clone, Copy, PartialEq, Eq, Structural)]
pub enum CapabilityError {
    /// Capability ID not found in table.
    InvalidId,
    /// Capability seal validation failed (tampering detected).
    SealBroken,
    /// Attempted operation requires rights not granted by capability.
    PermissionDenied,
    /// Capability table is full.
    TableFull,
}

/// Maximum number of capabilities per table.
pub const MAX_CAPABILITIES: usize = 4096;

/// `std::collections::BTreeMap::get_mut`: a mutable reference to the value under
/// `k` when there is one; what the caller leaves there becomes the map's value for
/// `k`, and nothing else changes. `None`, with the map unchanged, when `k` is absent.
#[verifier::external_body]
fn map_get_mut(m: &mut BTreeMap<u64, SealedCapability>, k: u64) -> (r: Option<&mut SealedCapability>)
    ensures
        match r {
            Some(v) => {
                &&& old(m)@.contains_key(k)
                &&& *v == old(m)@[k]
                &&& final(m)@ == old(m)@.insert(k, *final(v))
            },
            None => !old(m)@.contains_key(k) && final(m)@ == old(m)@,
        },
{
    m.get_mut(&k)
}

/// Capability table: maps opaque identifiers to sealed capabilities.
pub struct CapabilityTable {
    table: BTreeMap<u64, SealedCapability>,
}

impl View for CapabilityTable {
    type V = Map<u64, SealedCapability>;

    closed spec fn view(&self) -> Map<u64, SealedCapability> {
        self.table@
    }
}

impl CapabilityTable {
    /// Well-formedness: every capability is filed under its own identifier and the
    /// table is within capacity.
    pub closed spec fn wf(self) -> bool {
        &&& self.table@.len() <= MAX_CAPABILITIES
        &&& forall|k: u64| #[trigger] self.table@.contains_key(k) ==> self.table@[k].id.0 == k
    }

    /// Number of capabilities in the table.
    pub closed spec fn spec_len(self) -> nat {
        self.table@.len()
    }

    /// Create a new empty capability table.
    pub fn new() -> (r: Self)
        ensures
            r.wf(),
            r@ == Map::<u64, SealedCapability>::empty(),
            r.spec_len() == 0,
    {
        CapabilityTable { table: BTreeMap::new() }
    }

    /// Insert a sealed capability, replacing any entry with the same identifier.
    /// Fails with `TableFull` once the table holds `MAX_CAPABILITIES` entries.
    pub fn insert(&mut self, cap: SealedCapability) -> (r: Result<CapabilityId, CapabilityError>)
        requires
            old(self).wf(),
        ensures
            final(self).wf(),
            match r {
                Ok(id) => {
                    &&& old(self).spec_len() < MAX_CAPABILITIES
                    &&& id == cap.id
                    &&& final(self)@ == old(self)@.insert(cap.id.0, cap)
                    &&& final(self).spec_len() == old(self).spec_len() + (if old(self)@.contains_key(
                        cap.id.0,
                    ) {
                        0int
                    } else {
                        1int
                    })
                },
                Err(e) => {
                    &&& e == CapabilityError::TableFull
                    &&& old(self).spec_len() >= MAX_CAPABILITIES
                    &&& final(self)@ == old(self)@
                    &&& final(self).spec_len() == old(self).spec_len()
                },
            },
    {
        if self.table.len() >= MAX_CAPABILITIES {
            return Err(CapabilityError::TableFull);
        }
        let id = cap.id;
        self.table.insert(id.0, cap);
        proof {
            assert(self.table@.dom() =~= old(self).table@.dom().insert(id.0));
        }
        Ok(id)
    }

    /// Lookup a capability by ID and validate its seal.
    pub fn get(&self, id: CapabilityId) -> (r: Result<&SealedCapability, CapabilityError>)
        requires
            self.wf(),
        ensures
            match r {
                Ok(c) => self@.contains_key(id.0) && *c == self@[id.0] && c.spec_valid(),
                Err(e) => (e == CapabilityError::InvalidId && !self@.contains_key(id.0)) || (e
                    == CapabilityError::SealBroken && self@.contains_key(id.0) && !self@[id.0].spec_valid()),
            },
    {
        match self.table.get(&id.0) {
            None => Err(CapabilityError::InvalidId),
            Some(cap) => {
                if !cap.validate() {
                    return Err(CapabilityError::SealBroken);
                }
                Ok(cap)
            },
        }
    }

    /// Lookup a capability by ID for modification, validating its seal first.
    /// While the entry keeps its identifier, the table stays well formed and maps
    /// that identifier to the entry as the caller leaves it.
    pub fn get_mut(&mut self, id: CapabilityId) -> (r: Result<&mut SealedCapability, CapabilityError>)
        requires
            old(self).wf(),
        ensures
            match r {
                Ok(c) => {
                    &&& old(self)@.contains_key(id.0)
                    &&& *c == old(self)@[id.0]
                    &&& c.spec_valid()
                    &&& final(self).spec_len() == old(self).spec_len()
                    &&& final(c).id == id ==> final(self).wf() && final(self)@ == old(self)@.insert(id.0, *final(c))
                },
                Err(e) => {
                    &&& *final(self) == *old(self)
                    &&& (e == CapabilityError::InvalidId && !old(self)@.contains_key(id.0)) || (e
                        == CapabilityError::SealBroken && old(self)@.contains_key(id.0) && !old(self)@[id.0].spec_valid())
                },
            },
    {
        match self.table.get(&id.0) {
            None => {
                return Err(CapabilityError::InvalidId);
            },
            Some(cap) => {
                if !cap.validate() {
                    return Err(CapabilityError::SealBroken);
                }
            },
        }
        match map_get_mut(&mut self.table, id.0) {
            Some(c) => {
                proof {
                    assert forall|v: SealedCapability| v.id == id implies (#[trigger] old(self).table@.insert(id.0, v)).len()
                        == old(self).table@.len() by {
                        assert(old(self).table@.insert(id.0, v).dom() =~= old(self).table@.dom());
                    }
                }
                Ok(c)
            },
            None => Err(CapabilityError::InvalidId),
        }
    }

    /// Check that a capability exists, has an intact seal, and grants the `required` rights.
    pub fn check_rights(&self, id: CapabilityId, required: CapabilityRights) -> (r: Result<(), CapabilityError>)
        requires
            self.wf(),
        ensures
            r == (if !self@.contains_key(id.0) {
                Err(CapabilityError::InvalidId)
            } else if !self@[id.0].spec_valid() {
                Err(CapabilityError::SealBroken)
            } else if self@[id.0].rights.spec_contains(required) {
                Ok(())
            } else {
                Err(CapabilityError::PermissionDenied)
            }),
    {
        let cap = match self.get(id) {
            Ok(c) => c,
            Err(e) => {
                return Err(e);
            },
        };
        if cap.rights.contains(required) {
            Ok(())
        } else {
            Err(CapabilityError::PermissionDenied)
        }
    }

    /// Remove a capability from the table (revocation), returning it if it existed.
    pub fn remove(&mut self, id: CapabilityId) -> (r: Option<SealedCapability>)
        requires
            old(self).wf(),
        ensures
            final(self).wf(),
            final(self)@ == old(self)@.remove(id.0),
            r == (if old(self)@.contains_key(id.0) {
                Some(old(self)@[id.0])
            } else {
                None::<SealedCapability>
            }),
            final(self).spec_len() == old(self).spec_len() - (if old(self)@.contains_key(id.0) {
                1int
            } else {
                0int
            }),
    {
        let r = self.table.remove(&id.0);
        proof {
            assert(self.table@.dom() =~= old(self).table@.dom().remove(id.0));
        }
        r
    }

    /// Derive a new capability with reduced rights and insert it into the table.
    /// Rights can only be attenuated, and the derived rights must respect W^X.
    pub fn derive(&mut self, parent_id: CapabilityId, new_rights: CapabilityRights) -> (r: Result<CapabilityId, CapabilityError>)
        requires
            old(self).wf(),
            old(self)@.contains_key(parent_id.0) && old(self)@[parent_id.0].spec_valid() ==> {
                &&& old(self)@[parent_id.0].rights.spec_contains(new_rights)
                &&& !(new_rights.bits & 0b0010u32 == 0b0010u32 && new_rights.bits & 0b0100u32 == 0b0100u32)
            },
        ensures
            final(self).wf(),
            ({
                let child = SealedCapability::new_spec(old(self)@[parent_id.0].handle, new_rights);
                if !old(self)@.contains_key(parent_id.0) {
                    r == Err::<CapabilityId, CapabilityError>(CapabilityError::InvalidId) && final(self)@ == old(self)@
                } else if !old(self)@[parent_id.0].spec_valid() {
                    r == Err::<CapabilityId, CapabilityError>(CapabilityError::SealBroken) && final(self)@ == old(self)@
                } else if old(self).spec_len() >= MAX_CAPABILITIES {
                    r == Err::<CapabilityId, CapabilityError>(CapabilityError::TableFull) && final(self)@ == old(self)@
                } else {
                    r == Ok::<CapabilityId, CapabilityError>(child.id) && final(self)@ == old(self)@.insert(
                        child.id.0,
                        child,
                    )
                }
            }),
    {
        let child = match self.get(parent_id) {
            Ok(parent) => parent.derive(new_rights),
            Err(e) => {
                return Err(e);
            },
        };
        self.insert(child)
    }

    /// Get the object handle of a capability after validating its seal and rights.
    pub fn get_handle(&self, id: CapabilityId, required_rights: CapabilityRights) -> (r: Result<ObjectHandle, CapabilityError>)
        requires
            self.wf(),
        ensures
            r == (if !self@.contains_key(id.0) {
                Err(CapabilityError::InvalidId)
            } else if !self@[id.0].spec_valid() {
                Err(CapabilityError::SealBroken)
            } else if self@[id.0].rights.spec_contains(required_rights) {
                Ok(self@[id.0].handle)
            } else {
                Err(CapabilityError::PermissionDenied)
            }),
    {
        let cap = match self.get(id) {
            Ok(c) => c,
            Err(e) => {
                return Err(e);
            },
        };
        if !cap.rights.contains(required_rights) {
            return Err(CapabilityError::PermissionDenied);
        }
        Ok(cap.handle)
    }

    /// Number of capabilities in the table.
    pub fn len(&self) -> (r: usize)
        ensures
            r == self.spec_len(),
    {
        self.table.len()
    }

    /// Whether the table is empty.
    pub fn is_empty(&self) -> (r: bool)
        requires
            self.wf(),
        ensures
            r == (self.spec_len() == 0),
            r == (self@ == Map::<u64, SealedCapability>::empty()),
    {
        proof {
            if self.table@.len() > 0 {
                let k = self.table@.dom().choose();
                assert(self.table@.dom().contains(k));
                assert(!Map::<u64, SealedCapability>::empty().contains_key(k));
            } else {
                assert(self.table@ =~= Map::<u64, SealedCapability>::empty());
            }
        }
        self.table.len() == 0
    }

    /// Clear all capabilities from the table (revokes all of them).
    pub fn clear(&mut self)
        ensures
            final(self).wf(),
            final(self)@ == Map::<u64, SealedCapability>::empty(),
            final(self).spec_len() == 0,
    {
        self.table.clear();
    }
}

impl Default for CapabilityTable {
    fn default() -> (r: Self)
        ensures
            r.wf(),
            r@ == Map::<u64, SealedCapability>::empty(),
    {
        Self::new()
    }
}


/// What a read gives back of a write: after `insert(cap)` succeeds, the table holds
/// `cap` under its identifier, and every other identifier keeps its entry.
pub proof fn lemma_insert_then_get(table: Map<u64, SealedCapability>, cap: SealedCapability, other: u64)
    requires
        other != cap.id.0,
    ensures
        table.insert(cap.id.0, cap).contains_key(cap.id.0),
        table.insert(cap.id.0, cap)[cap.id.0] == cap,
        table.insert(cap.id.0, cap).contains_key(other) == table.contains_key(other),
        table.contains_key(other) ==> table.insert(cap.id.0, cap)[other] == table[other],
{
}

/// Revocation is final: after `remove(id)` the identifier is no longer in the table,
/// so `get` answers `InvalidId`; other entries are untouched.
pub proof fn lemma_remove_then_invalid(table: Map<u64, SealedCapability>, id: u64, other: u64)
    requires
        other != id,
    ensures
        !table.remove(id).contains_key(id),
        table.remove(id).contains_key(other) == table.contains_key(other),
        table.contains_key(other) ==> table.remove(id)[other] == table[other],
{
}

} // verus!
