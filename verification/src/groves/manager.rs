//! Grove Manager: the registry of Ring 1 services.
//!
//! Services are kept in the order of their identifiers, which are handed out
//! in increasing order starting at 1; names are unique across the registry.
use vstd::prelude::*;
use super::service::{
    ServiceId, ServiceInfo, ServiceState, ServiceCapability, ResourceLimits, RespawnPolicy,
    same_but_state, within_limits_spec,
};
use crate::loom_of_fate::thread::ThreadId;
use crate::loom_of_fate::vessel::VesselId;
use crate::mana_pool::concordance_of_fates::{chars_of, chars_eq};

verus! {

/// Errors that can occur during Grove management.
#[derive(Debug, Clone, Copy, PartialEq, Eq, Structural)]
pub enum GroveError {
    /// Service with this ID already exists.
    ServiceAlreadyExists,
    /// Service with this ID not found.
    ServiceNotFound,
    /// Service name is invalid or already taken.
    InvalidServiceName,
    /// Service is in the wrong state for this operation.
    InvalidState,
    /// Service has exceeded its resource limits.
    ResourceLimitExceeded,
    /// Service does not have the required capability.
    CapabilityDenied,
    /// Maximum number of services reached.
    TooManyServices,
}

/// Maximum number of Grove services that can be loaded.
pub const MAX_SERVICES: usize = 64;

/// Position of the first service with identifier `id`, searching from `i`.
pub open spec fn service_index_from(s: Seq<ServiceInfo>, id: u64, i: int) -> Option<int>
    decreases s.len() - i,
{
    if i < 0 || i >= s.len() {
        None
    } else if s[i].id.0 == id {
        Some(i)
    } else {
        service_index_from(s, id, i + 1)
    }
}

/// Position of the service with identifier `id`.
pub open spec fn service_index(s: Seq<ServiceInfo>, id: u64) -> Option<int> {
    service_index_from(s, id, 0)
}

/// Position of the first service named `name`, searching from `i`.
pub open spec fn name_index_from(s: Seq<ServiceInfo>, name: Seq<char>, i: int) -> Option<int>
    decreases s.len() - i,
{
    if i < 0 || i >= s.len() {
        None
    } else if s[i].name@ == name {
        Some(i)
    } else {
        name_index_from(s, name, i + 1)
    }
}

/// Position of the service named `name`.
pub open spec fn name_index(s: Seq<ServiceInfo>, name: Seq<char>) -> Option<int> {
    name_index_from(s, name, 0)
}

/// Identifiers, in registry order, of the services in `state` among the first `n`.
pub open spec fn ids_in_state(s: Seq<ServiceInfo>, state: ServiceState, n: int) -> Seq<ServiceId>
    decreases n,
{
    if n <= 0 || n > s.len() {
        Seq::empty()
    } else if s[n - 1].state == state {
        ids_in_state(s, state, n - 1).push(s[n - 1].id)
    } else {
        ids_in_state(s, state, n - 1)
    }
}

/// `s` is exactly the record that registration makes from these arguments.
pub open spec fn is_fresh_service(
    s: ServiceInfo,
    id: u64,
    name: Seq<char>,
    vessel_id: VesselId,
    main_thread_id: ThreadId,
    capabilities: Seq<ServiceCapability>,
    limits: ResourceLimits,
    respawn_policy: RespawnPolicy,
) -> bool {
    &&& s.id == ServiceId(id)
    &&& s.name@ == name
    &&& s.state == ServiceState::Loading
    &&& s.vessel_id == vessel_id
    &&& s.main_thread_id == main_thread_id
    &&& s.capabilities@ == capabilities
    &&& s.limits == limits
    &&& s.cpu_time_used == 0
    &&& s.memory_used == 0
    &&& s.thread_count == 1
    &&& s.ipc_messages_sent == 0
    &&& s.ipc_messages_received == 0
    &&& s.respawn_policy == respawn_policy
    &&& s.crash_count == 0
    &&& s.last_crash_time == 0
}

/// The record after a resource usage report.
pub open spec fn usage_updated(a: ServiceInfo, b: ServiceInfo, cpu: u64, mem: usize, threads: usize) -> bool {
    &&& a.id == b.id
    &&& a.name == b.name
    &&& a.state == b.state
    &&& a.vessel_id == b.vessel_id
    &&& a.main_thread_id == b.main_thread_id
    &&& a.capabilities == b.capabilities
    &&& a.limits == b.limits
    &&& a.cpu_time_used == cpu
    &&& a.memory_used == mem
    &&& a.thread_count == threads
    &&& a.ipc_messages_sent == b.ipc_messages_sent
    &&& a.ipc_messages_received == b.ipc_messages_received
    &&& a.respawn_policy == b.respawn_policy
    &&& a.crash_count == b.crash_count
    &&& a.last_crash_time == b.last_crash_time
}

/// The Grove Manager: registry of all Ring 1 services.
pub struct GroveManager {
    /// Registered services, in increasing order of identifier.
    services: Vec<ServiceInfo>,
    /// Next ServiceId to allocate.
    next_service_id: u64,
    /// How many registrations have succeeded so far.
    registrations: Ghost<nat>,
}

impl GroveManager {
    /// The registered services, in increasing order of identifier.
    pub closed spec fn spec_services(&self) -> Seq<ServiceInfo> {
        self.services@
    }

    /// The identifier the next registration receives.
    pub closed spec fn spec_next_id(&self) -> u64 {
        self.next_service_id
    }

    /// The number of successful registrations since the manager was created.
    pub closed spec fn spec_registrations(&self) -> nat {
        self.registrations@
    }

    /// Registry invariant: bounded size, identifiers increasing and below the next one,
    /// names unique, identifier 0 never used.
    pub open spec fn wf(&self) -> bool {
        let s = self.spec_services();
        &&& s.len() <= MAX_SERVICES
        &&& self.spec_next_id() >= 1
        &&& self.spec_next_id() == self.spec_registrations() + 1
        &&& forall|i: int, j: int| 0 <= i < j < s.len() ==> s[i].id.0 < s[j].id.0
        &&& forall|i: int| 0 <= i < s.len() ==> 1 <= #[trigger] s[i].id.0 < self.spec_next_id()
        &&& forall|i: int, j: int| 0 <= i < s.len() && 0 <= j < s.len() && i != j
            ==> s[i].name@ != s[j].name@
    }

    /// Create a new empty Grove Manager; identifiers start at 1 (0 is reserved).
    pub fn new() -> (r: Self)
        ensures
            r.wf(),
            r.spec_services().len() == 0,
            r.spec_next_id() == 1,
            r.spec_registrations() == 0,
    {
        GroveManager { services: Vec::new(), next_service_id: 1, registrations: Ghost(0) }
    }

    fn index_of(&self, service_id: ServiceId) -> (r: Option<usize>)
        ensures
            match r {
                Some(i) => service_index(self.services@, service_id.0) == Some(i as int)
                    && i < self.services@.len(),
                None => service_index(self.services@, service_id.0) is None,
            },
    {
        let mut i: usize = 0;
        while i < self.services.len()
            invariant
                i <= self.services@.len(),
                service_index_from(self.services@, service_id.0, 0) == service_index_from(
                    self.services@,
                    service_id.0,
                    i as int,
                ),
            decreases self.services@.len() - i,
        {
            if self.services[i].id.0 == service_id.0 {
                return Some(i);
            }
            i = i + 1;
        }
        None
    }

    fn index_of_name(&self, name: &Vec<char>) -> (r: Option<usize>)
        ensures
            match r {
                Some(i) => name_index(self.services@, name@) == Some(i as int) && i < self.services@.len(),
                None => name_index(self.services@, name@) is None,
            },
    {
        let mut i: usize = 0;
        while i < self.services.len()
            invariant
                i <= self.services@.len(),
                name_index_from(self.services@, name@, 0) == name_index_from(
                    self.services@,
                    name@,
                    i as int,
                ),
            decreases self.services@.len() - i,
        {
            let candidate = chars_of(self.services[i].name.as_str());
            if chars_eq(&candidate, name) {
                return Some(i);
            }
            i = i + 1;
        }
        None
    }

    /// Register a new Grove service in the Loading state.
    ///
    /// Fails with `TooManyServices` when the registry is full and with
    /// `InvalidServiceName` when the name is taken; otherwise the service gets the
    /// next identifier and is appended to the registry. Identifiers are never reused:
    /// the one handed out is one more than the number of earlier successful
    /// registrations.
    pub fn register_service(
        &mut self,
        name: String,
        vessel_id: VesselId,
        main_thread_id: ThreadId,
        capabilities: Vec<ServiceCapability>,
        limits: ResourceLimits,
        respawn_policy: RespawnPolicy,
    ) -> (r: Result<ServiceId, GroveError>)
        requires
            old(self).wf(),
            old(self).spec_next_id() < u64::MAX,
        ensures
            final(self).wf(),
            old(self).spec_services().len() >= MAX_SERVICES ==> r == Err::<ServiceId, GroveError>(
                GroveError::TooManyServices,
            ),
            old(self).spec_services().len() < MAX_SERVICES && name_index(old(self).spec_services(), name@)
                is Some ==> r == Err::<ServiceId, GroveError>(GroveError::InvalidServiceName),
            r is Err ==> *final(self) == *old(self),
            old(self).spec_services().len() < MAX_SERVICES && name_index(old(self).spec_services(), name@)
                is None ==> {
                &&& r == Ok::<ServiceId, GroveError>(ServiceId(old(self).spec_next_id()))
                &&& r->Ok_0.0 == old(self).spec_registrations() + 1
                &&& final(self).spec_next_id() == old(self).spec_next_id() + 1
                &&& final(self).spec_registrations() == old(self).spec_registrations() + 1
                &&& final(self).spec_services().len() == old(self).spec_services().len() + 1
                &&& final(self).spec_services().drop_last() == old(self).spec_services()
                &&& is_fresh_service(
                    final(self).spec_services().last(),
                    old(self).spec_next_id(),
                    name@,
                    vessel_id,
                    main_thread_id,
                    capabilities@,
                    limits,
                    respawn_policy,
                )
            },
    {
        if self.services.len() >= MAX_SERVICES {
            return Err(GroveError::TooManyServices);
        }
        let name_chars = chars_of(name.as_str());
        if self.index_of_name(&name_chars).is_some() {
            return Err(GroveError::InvalidServiceName);
        }
        proof {
            // No service carries the name: walk the search to its end.
            assert forall|k: int| 0 <= k < self.services@.len() implies #[trigger] self.services@[k].name@
                != name@ by {
                lemma_name_absent(self.services@, name@, 0, k);
            }
        }
        let service_id = ServiceId(self.next_service_id);
        self.next_service_id = self.next_service_id + 1;
        self.registrations = Ghost(self.registrations@ + 1);
        let info = ServiceInfo::new(
            service_id,
            name,
            vessel_id,
            main_thread_id,
            capabilities,
            limits,
            respawn_policy,
        );
        let ghost before = self.services@;
        self.services.push(info);
        proof {
            assert(self.services@.drop_last() =~= before);
        }
        Ok(service_id)
    }

    /// Unregister a service (called when the service terminates).
    pub fn unregister_service(&mut self, service_id: ServiceId) -> (r: Result<(), GroveError>)
        requires
            old(self).wf(),
        ensures
            final(self).wf(),
            final(self).spec_next_id() == old(self).spec_next_id(),
            match service_index(old(self).spec_services(), service_id.0) {
                Some(i) => r == Ok::<(), GroveError>(()) && final(self).spec_services()
                    == old(self).spec_services().remove(i),
                None => r == Err::<(), GroveError>(GroveError::ServiceNotFound) && *final(self) == *old(self),
            },
    {
        match self.index_of(service_id) {
            None => Err(GroveError::ServiceNotFound),
            Some(i) => {
                let ghost before = self.services@;
                let _removed = self.services.remove(i);
                proof {
                    let after = self.services@;
                    assert(after =~= before.remove(i as int));
                    assert forall|a: int, b: int| 0 <= a < b < after.len() implies after[a].id.0
                        < after[b].id.0 by {
                        let a0 = if a < i { a } else { a + 1 };
                        let b0 = if b < i { b } else { b + 1 };
                        assert(after[a] == before[a0]);
                        assert(after[b] == before[b0]);
                    }
                    assert forall|a: int| 0 <= a < after.len() implies 1 <= #[trigger] after[a].id.0
                        < self.next_service_id by {
                        let a0 = if a < i { a } else { a + 1 };
                        assert(after[a] == before[a0]);
                    }
                    assert forall|a: int, b: int|
                        0 <= a < after.len() && 0 <= b < after.len() && a != b implies after[a].name@
                        != after[b].name@ by {
                        let a0 = if a < i { a } else { a + 1 };
                        let b0 = if b < i { b } else { b + 1 };
                        assert(after[a] == before[a0]);
                        assert(after[b] == before[b0]);
                    }
                }
                Ok(())
            },
        }
    }

    /// Find a service by identifier.
    pub fn find_service(&self, service_id: ServiceId) -> (r: Option<&ServiceInfo>)
        ensures
            match service_index(self.spec_services(), service_id.0) {
                Some(i) => r == Some(&self.spec_services()[i]),
                None => r is None,
            },
    {
        match self.index_of(service_id) {
            Some(i) => Some(&self.services[i]),
            None => None,
        }
    }

    /// Find a service by identifier, for modification. The registry keeps its
    /// invariant as long as the caller leaves the record's identifier and name as they were.
    pub fn find_service_mut(&mut self, service_id: ServiceId) -> (r: Option<&mut ServiceInfo>)
        requires
            old(self).wf(),
        ensures
            final(self).spec_next_id() == old(self).spec_next_id(),
            match service_index(old(self).spec_services(), service_id.0) {
                Some(i) => match r {
                    Some(c) => {
                        &&& *c == old(self).spec_services()[i]
                        &&& final(self).spec_services() == old(self).spec_services().update(i, *final(c))
                        &&& final(c).id == c.id && final(c).name@ == c.name@ ==> final(self).wf()
                    },
                    None => false,
                },
                None => r is None && *final(self) == *old(self),
            },
    {
        match self.index_of(service_id) {
            Some(i) => {
                proof {
                    let s = self.services@;
                    assert forall|v: ServiceInfo| #![trigger s.update(i as int, v)]
                        v.id == s[i as int].id && v.name@ == s[i as int].name@ implies ({
                            let t = s.update(i as int, v);
                            &&& forall|a: int, b: int| 0 <= a < b < t.len() ==> t[a].id.0 < t[b].id.0
                            &&& forall|a: int| 0 <= a < t.len() ==> 1 <= #[trigger] t[a].id.0 < self.next_service_id
                            &&& forall|a: int, b: int| 0 <= a < t.len() && 0 <= b < t.len() && a != b
                                ==> t[a].name@ != t[b].name@
                        }) by {
                        let t = s.update(i as int, v);
                        assert forall|a: int| 0 <= a < t.len() implies #[trigger] t[a].id.0 == s[a].id.0 && t[a].name@ == s[a].name@ by {}
                    }
                }
                Some(&mut self.services[i])
            },
            None => None,
        }
    }

    /// Find a service by name.
    pub fn find_service_by_name(&self, name: &str) -> (r: Option<&ServiceInfo>)
        ensures
            match name_index(self.spec_services(), name@) {
                Some(i) => r == Some(&self.spec_services()[i]),
                None => r is None,
            },
    {
        let name_chars = chars_of(name);
        match self.index_of_name(&name_chars) {
            Some(i) => Some(&self.services[i]),
            None => None,
        }
    }

    /// All registered services, in increasing order of identifier.
    pub fn all_services(&self) -> (r: &[ServiceInfo])
        ensures
            r@ == self.spec_services(),
    {
        self.services.as_slice()
    }

    /// Mark a loading service as running.
    pub fn set_service_running(&mut self, service_id: ServiceId) -> (r: Result<(), GroveError>)
        requires
            old(self).wf(),
        ensures
            final(self).wf(),
            final(self).spec_next_id() == old(self).spec_next_id(),
            match service_index(old(self).spec_services(), service_id.0) {
                None => r == Err::<(), GroveError>(GroveError::ServiceNotFound) && *final(self) == *old(self),
                Some(i) => if old(self).spec_services()[i].state != ServiceState::Loading {
                    r == Err::<(), GroveError>(GroveError::InvalidState) && *final(self) == *old(self)
                } else {
                    &&& r == Ok::<(), GroveError>(())
                    &&& final(self).spec_services().len() == old(self).spec_services().len()
                    &&& forall|k: int|
                        0 <= k < old(self).spec_services().len() && k != i ==> final(self).spec_services()[k] == old(self).spec_services()[k]
                    &&& final(self).spec_services()[i].state == ServiceState::Running
                    &&& same_but_state(final(self).spec_services()[i], old(self).spec_services()[i])
                },
            },
    {
        match self.index_of(service_id) {
            None => Err(GroveError::ServiceNotFound),
            Some(i) => {
                if self.services[i].state != ServiceState::Loading {
                    return Err(GroveError::InvalidState);
                }
                self.services[i].set_running();
                Ok(())
            },
        }
    }

    /// Mark a service as faulted.
    pub fn set_service_faulted(&mut self, service_id: ServiceId) -> (r: Result<(), GroveError>)
        requires
            old(self).wf(),
        ensures
            final(self).wf(),
            final(self).spec_next_id() == old(self).spec_next_id(),
            match service_index(old(self).spec_services(), service_id.0) {
                None => r == Err::<(), GroveError>(GroveError::ServiceNotFound) && *final(self) == *old(self),
                Some(i) => {
                    &&& r == Ok::<(), GroveError>(())
                    &&& final(self).spec_services().len() == old(self).spec_services().len()
                    &&& forall|k: int|
                        0 <= k < old(self).spec_services().len() && k != i ==> final(self).spec_services()[k] == old(self).spec_services()[k]
                    &&& final(self).spec_services()[i].state == ServiceState::Faulted
                    &&& same_but_state(final(self).spec_services()[i], old(self).spec_services()[i])
                },
            },
    {
        match self.index_of(service_id) {
            None => Err(GroveError::ServiceNotFound),
            Some(i) => {
                self.services[i].set_faulted();
                Ok(())
            },
        }
    }

    /// Mark a service as stopped.
    pub fn set_service_stopped(&mut self, service_id: ServiceId) -> (r: Result<(), GroveError>)
        requires
            old(self).wf(),
        ensures
            final(self).wf(),
            final(self).spec_next_id() == old(self).spec_next_id(),
            match service_index(old(self).spec_services(), service_id.0) {
                None => r == Err::<(), GroveError>(GroveError::ServiceNotFound) && *final(self) == *old(self),
                Some(i) => {
                    &&& r == Ok::<(), GroveError>(())
                    &&& final(self).spec_services().len() == old(self).spec_services().len()
                    &&& forall|k: int|
                        0 <= k < old(self).spec_services().len() && k != i ==> final(self).spec_services()[k] == old(self).spec_services()[k]
                    &&& final(self).spec_services()[i].state == ServiceState::Stopped
                    &&& same_but_state(final(self).spec_services()[i], old(self).spec_services()[i])
                },
            },
    {
        match self.index_of(service_id) {
            None => Err(GroveError::ServiceNotFound),
            Some(i) => {
                self.services[i].set_stopped();
                Ok(())
            },
        }
    }

    /// Mark a service as loading again (before it is started anew).
    pub fn set_service_loading(&mut self, service_id: ServiceId) -> (r: Result<(), GroveError>)
        requires
            old(self).wf(),
        ensures
            final(self).wf(),
            final(self).spec_next_id() == old(self).spec_next_id(),
            match service_index(old(self).spec_services(), service_id.0) {
                None => r == Err::<(), GroveError>(GroveError::ServiceNotFound) && *final(self) == *old(self),
                Some(i) => {
                    &&& r == Ok::<(), GroveError>(())
                    &&& final(self).spec_services().len() == old(self).spec_services().len()
                    &&& forall|k: int|
                        0 <= k < old(self).spec_services().len() && k != i ==> final(self).spec_services()[k] == old(self).spec_services()[k]
                    &&& final(self).spec_services()[i].state == ServiceState::Loading
                    &&& same_but_state(final(self).spec_services()[i], old(self).spec_services()[i])
                },
            },
    {
        match self.index_of(service_id) {
            None => Err(GroveError::ServiceNotFound),
            Some(i) => {
                self.services[i].set_loading();
                Ok(())
            },
        }
    }

    /// Check whether a service holds a capability.
    pub fn check_capability(&self, service_id: ServiceId, capability: ServiceCapability) -> (r: Result<
        bool,
        GroveError,
    >)
        ensures
            match service_index(self.spec_services(), service_id.0) {
                None => r == Err::<bool, GroveError>(GroveError::ServiceNotFound),
                Some(i) => r == Ok::<bool, GroveError>(
                    self.spec_services()[i].capabilities@.contains(capability),
                ),
            },
    {
        match self.index_of(service_id) {
            None => Err(GroveError::ServiceNotFound),
            Some(i) => Ok(self.services[i].has_capability(capability)),
        }
    }

    /// Record the resource usage of a service.
    ///
    /// The figures are stored in every case; the call then fails with
    /// `ResourceLimitExceeded` when memory or thread count is over the limit.
    pub fn update_resource_usage(
        &mut self,
        service_id: ServiceId,
        cpu_time_used: u64,
        memory_used: usize,
        thread_count: usize,
    ) -> (r: Result<(), GroveError>)
        requires
            old(self).wf(),
        ensures
            final(self).wf(),
            final(self).spec_next_id() == old(self).spec_next_id(),
            match service_index(old(self).spec_services(), service_id.0) {
                None => r == Err::<(), GroveError>(GroveError::ServiceNotFound) && *final(self) == *old(self),
                Some(i) => {
                    &&& final(self).spec_services().len() == old(self).spec_services().len()
                    &&& forall|k: int|
                        0 <= k < old(self).spec_services().len() && k != i ==> final(self).spec_services()[k] == old(self).spec_services()[k]
                    &&& usage_updated(
                        final(self).spec_services()[i],
                        old(self).spec_services()[i],
                        cpu_time_used,
                        memory_used,
                        thread_count,
                    )
                    &&& if within_limits_spec(final(self).spec_services()[i]) {
                        r == Ok::<(), GroveError>(())
                    } else {
                        r == Err::<(), GroveError>(GroveError::ResourceLimitExceeded)
                    }
                },
            },
    {
        match self.index_of(service_id) {
            None => Err(GroveError::ServiceNotFound),
            Some(i) => {
                let service = &mut self.services[i];
                service.cpu_time_used = cpu_time_used;
                service.memory_used = memory_used;
                service.thread_count = thread_count;
                if !self.services[i].within_limits() {
                    return Err(GroveError::ResourceLimitExceeded);
                }
                Ok(())
            },
        }
    }

    /// Apply the respawn policy to a crashed service: count the crash when the policy
    /// allows a respawn. Fails with `ServiceNotFound` for an unknown identifier.
    pub(crate) fn respawn_check(&mut self, service_id: ServiceId, current_time: u64) -> (r: Result<
        bool,
        GroveError,
    >)
        requires
            old(self).wf(),
            service_index(old(self).spec_services(), service_id.0) matches Some(i)
                ==> old(self).spec_services()[i].crash_count < u32::MAX,
        ensures
            final(self).wf(),
            final(self).spec_next_id() == old(self).spec_next_id(),
            final(self).spec_services().len() == old(self).spec_services().len(),
            match service_index(old(self).spec_services(), service_id.0) {
                None => r == Err::<bool, GroveError>(GroveError::ServiceNotFound) && *final(self) == *old(self),
                Some(i) => {
                    let a = final(self).spec_services()[i];
                    let b = old(self).spec_services()[i];
                    &&& r == Ok::<bool, GroveError>(b.respawn_allowed())
                    &&& forall|k: int|
                        0 <= k < old(self).spec_services().len() && k != i ==> final(self).spec_services()[k] == old(self).spec_services()[k]
                    &&& a.id == b.id && a.name == b.name && a.state == b.state
                    &&& a.respawn_policy == b.respawn_policy
                    &&& b.respawn_allowed() ==> a.crash_count == b.crash_count + 1 && a.last_crash_time == current_time
                    &&& !b.respawn_allowed() ==> a.crash_count == b.crash_count && a.last_crash_time == b.last_crash_time
                    &&& a == (if b.respawn_allowed() {
                        ServiceInfo { crash_count: (b.crash_count + 1) as u32, last_crash_time: current_time, ..b }
                    } else {
                        b
                    })
                },
            },
    {
        match self.index_of(service_id) {
            None => Err(GroveError::ServiceNotFound),
            Some(i) => Ok(self.services[i].should_respawn(current_time)),
        }
    }

    /// Number of registered services.
    pub fn service_count(&self) -> (r: usize)
        ensures
            r == self.spec_services().len(),
    {
        self.services.len()
    }

    /// Identifiers of all services in `state`, in increasing order of identifier.
    pub fn services_in_state(&self, state: ServiceState) -> (r: Vec<ServiceId>)
        ensures
            r@ == ids_in_state(self.spec_services(), state, self.spec_services().len() as int),
    {
        let mut out: Vec<ServiceId> = Vec::new();
        let mut i: usize = 0;
        while i < self.services.len()
            invariant
                i <= self.services@.len(),
                out@ == ids_in_state(self.services@, state, i as int),
            decreases self.services@.len() - i,
        {
            if self.services[i].state == state {
                out.push(self.services[i].id);
            }
            i = i + 1;
        }
        out
    }
}

/// A name search that comes back empty from `start` finds no matching name at or after it.
proof fn lemma_name_absent(s: Seq<ServiceInfo>, name: Seq<char>, start: int, k: int)
    requires
        0 <= start <= k < s.len(),
        name_index_from(s, name, start) is None,
    ensures
        s[k].name@ != name,
    decreases k - start,
{
    if start < k {
        lemma_name_absent(s, name, start + 1, k);
    }
}

} // verus!
