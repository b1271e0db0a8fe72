//! Service lifecycle: starting, stopping, restarting, and crash handling.
//!
//! These functions work on the registry passed to them; releasing a stopped
//! service's thread and address space is left to the caller.
use vstd::prelude::*;
use super::manager::{GroveManager, GroveError, MAX_SERVICES, is_fresh_service, name_index, service_index};
use super::service::{ServiceId, ServiceInfo, ServiceState, ServiceCapability, ResourceLimits, RespawnPolicy, same_but_state};
use crate::loom_of_fate::context::context_with;
use crate::loom_of_fate::create_service_thread;
use crate::loom_of_fate::harbor::{unmoor_effect, Harbor};
use crate::loom_of_fate::scheduler::{terminate_effect, Scheduler};
use crate::loom_of_fate::thread::{ThreadId, ThreadPriority, ThreadState};
use crate::loom_of_fate::vessel::{Vessel, VesselId, VesselState};

verus! {

/// Configuration for loading a service.
pub struct ServiceConfig {
    /// Service name (e.g., "world-tree").
    pub name: String,
    /// Entry point address (from ELF loading).
    pub entry_point: u64,
    /// Stack top address (pre-allocated).
    pub stack_top: u64,
    /// Page table physical address (from the Vessel).
    pub page_table_phys: u64,
    /// Thread priority.
    pub priority: ThreadPriority,
    /// Capabilities to grant.
    pub capabilities: Vec<ServiceCapability>,
    /// Resource limits.
    pub limits: ResourceLimits,
    /// Respawn policy if the service crashes.
    pub respawn_policy: RespawnPolicy,
}

/// Load a service: moor a Vessel for it in `harbor` (with `address_space`, the
/// service's page table and its stack top as kernel stack), create its main
/// thread in `loom`, record that thread as the Vessel's main thread, and register
/// the service in `manager` in the Loading state.
///
/// The Vessel and the thread are created whatever the registration's outcome;
/// the registration fails as `GroveManager::register_service` does.
pub fn load_service<A>(
    config: ServiceConfig,
    address_space: A,
    harbor: &mut Harbor<A>,
    loom: &mut Scheduler,
    manager: &mut GroveManager,
) -> (r: Result<ServiceId, GroveError>)
    requires
        old(harbor).wf(),
        old(harbor).spec_next_beacon() < u64::MAX,
        old(loom).wf(),
        old(loom).spec_next_id() < u64::MAX,
        old(manager).wf(),
        old(manager).spec_next_id() < u64::MAX,
    ensures
        final(harbor).wf(),
        final(loom).wf(),
        final(manager).wf(),
        ({
            let beacon = VesselId(old(harbor).spec_next_beacon());
            let tid = ThreadId(old(loom).spec_next_id());
            let th = final(loom).spec_threads().last();
            &&& final(harbor).spec_next_beacon() == old(harbor).spec_next_beacon() + 1
            &&& final(harbor).spec_vessels().len() == old(harbor).spec_vessels().len() + 1
            &&& final(harbor).spec_vessels().drop_last() == old(harbor).spec_vessels()
            &&& final(harbor).spec_vessels().last() == (Vessel {
                beacon: beacon,
                parent: None,
                address_space: address_space,
                page_table_phys: config.page_table_phys,
                entry_point: 0,
                kernel_stack: config.stack_top,
                main_thread: tid,
                fate: config.name,
                state: VesselState::Nascent,
            })
            &&& final(loom).spec_threads().len() == old(loom).spec_threads().len() + 1
            &&& final(loom).spec_threads().drop_last() == old(loom).spec_threads()
            &&& th.id == tid
            &&& th.context == context_with(config.entry_point, 0x29, 0x1202, config.stack_top, 0x31, config.page_table_phys)
            &&& th.vessel_id == Some(beacon)
            &&& th.priority == config.priority
            &&& th.state == ThreadState::Resting
            &&& final(loom).spec_ready() == old(loom).spec_ready().push(tid)
            &&& if old(manager).spec_services().len() >= MAX_SERVICES {
                r == Err::<ServiceId, GroveError>(GroveError::TooManyServices) && *final(manager) == *old(manager)
            } else if name_index(old(manager).spec_services(), config.name@) is Some {
                r == Err::<ServiceId, GroveError>(GroveError::InvalidServiceName) && *final(manager) == *old(manager)
            } else {
                &&& r == Ok::<ServiceId, GroveError>(ServiceId(old(manager).spec_next_id()))
                &&& r->Ok_0.0 == old(manager).spec_registrations() + 1
                &&& final(manager).spec_next_id() == old(manager).spec_next_id() + 1
                &&& final(manager).spec_registrations() == old(manager).spec_registrations() + 1
                &&& final(manager).spec_services().len() == old(manager).spec_services().len() + 1
                &&& final(manager).spec_services().drop_last() == old(manager).spec_services()
                &&& is_fresh_service(
                    final(manager).spec_services().last(),
                    old(manager).spec_next_id(),
                    config.name@,
                    beacon,
                    tid,
                    config.capabilities@,
                    config.limits,
                    config.respawn_policy,
                )
            }
        }),
{
    let ghost h0 = harbor.spec_vessels();
    let vessel_id = harbor.moor_vessel(
        None,
        address_space,
        config.page_table_phys,
        config.stack_top,
        ThreadId(0),
        config.name.clone(),
    );
    let thread_id = match create_service_thread(
        loom,
        vessel_id,
        config.page_table_phys,
        config.entry_point,
        config.stack_top,
        config.priority,
    ) {
        Ok(t) => t,
        Err(_) => {
            return Err(GroveError::InvalidState);
        },
    };
    let _ = harbor.set_main_thread(vessel_id, thread_id);
    proof {
        let h2 = harbor.spec_vessels();
        assert(h2.drop_last() =~= h0);
    }
    manager.register_service(
        config.name,
        vessel_id,
        thread_id,
        config.capabilities,
        config.limits,
        config.respawn_policy,
    )
}

/// The registry is unchanged except that service `i` is now in `state`.
pub open spec fn only_state_changed(m1: GroveManager, m0: GroveManager, i: int, state: ServiceState) -> bool {
    &&& m1.spec_next_id() == m0.spec_next_id()
    &&& m1.spec_services().len() == m0.spec_services().len()
    &&& forall|k: int|
        0 <= k < m0.spec_services().len() && k != i ==> m1.spec_services()[k] == m0.spec_services()[k]
    &&& m1.spec_services()[i].state == state
    &&& same_but_state(m1.spec_services()[i], m0.spec_services()[i])
}

/// Start a loaded service: Loading becomes Running.
pub fn start_service(manager: &mut GroveManager, service_id: ServiceId) -> (r: Result<(), GroveError>)
    requires
        old(manager).wf(),
    ensures
        final(manager).wf(),
        match service_index(old(manager).spec_services(), service_id.0) {
            None => r == Err::<(), GroveError>(GroveError::ServiceNotFound) && *final(manager) == *old(manager),
            Some(i) => if old(manager).spec_services()[i].state != ServiceState::Loading {
                r == Err::<(), GroveError>(GroveError::InvalidState) && *final(manager) == *old(manager)
            } else {
                r == Ok::<(), GroveError>(()) && only_state_changed(
                    *final(manager),
                    *old(manager),
                    i,
                    ServiceState::Running,
                )
            },
        },
{
    match manager.find_service(service_id) {
        None => return Err(GroveError::ServiceNotFound),
        Some(service) => {
            if service.state != ServiceState::Loading {
                return Err(GroveError::InvalidState);
            }
        },
    }
    manager.set_service_running(service_id)
}

/// Stop a service: any state but Stopped becomes Stopped; its main thread is
/// terminated in `loom` and its Vessel unmoored from `harbor`. A stopped service
/// stays registered.
pub fn stop_service<A>(
    manager: &mut GroveManager,
    loom: &mut Scheduler,
    harbor: &mut Harbor<A>,
    service_id: ServiceId,
) -> (r: Result<(), GroveError>)
    requires
        old(manager).wf(),
        old(loom).wf(),
    ensures
        final(manager).wf(),
        final(loom).wf(),
        old(harbor).wf() ==> final(harbor).wf(),
        match service_index(old(manager).spec_services(), service_id.0) {
            None => {
                &&& r == Err::<(), GroveError>(GroveError::ServiceNotFound)
                &&& *final(manager) == *old(manager) && *final(loom) == *old(loom) && *final(harbor) == *old(harbor)
            },
            Some(i) => if old(manager).spec_services()[i].state == ServiceState::Stopped {
                &&& r == Err::<(), GroveError>(GroveError::InvalidState)
                &&& *final(manager) == *old(manager) && *final(loom) == *old(loom) && *final(harbor) == *old(harbor)
            } else {
                &&& r == Ok::<(), GroveError>(())
                &&& only_state_changed(*final(manager), *old(manager), i, ServiceState::Stopped)
                &&& terminate_effect(*old(loom), *final(loom), old(manager).spec_services()[i].main_thread_id)
                &&& unmoor_effect(*old(harbor), *final(harbor), old(manager).spec_services()[i].vessel_id)
            },
        },
{
    let (vessel_id, thread_id) = match manager.find_service(service_id) {
        None => return Err(GroveError::ServiceNotFound),
        Some(service) => {
            if service.state == ServiceState::Stopped {
                return Err(GroveError::InvalidState);
            }
            (service.vessel_id, service.main_thread_id)
        },
    };
    match manager.set_service_stopped(service_id) {
        Err(e) => return Err(e),
        Ok(()) => {},
    }
    let _ = loom.terminate_thread(thread_id);
    let _ = harbor.unmoor_vessel(vessel_id);
    Ok(())
}

/// Restart a service: stop it (terminating its main thread and unmooring its
/// Vessel), mark it Loading again, and start it, so that it ends Running. A
/// service that is already Stopped cannot be stopped and is refused.
pub fn restart_service<A>(
    manager: &mut GroveManager,
    loom: &mut Scheduler,
    harbor: &mut Harbor<A>,
    service_id: ServiceId,
) -> (r: Result<(), GroveError>)
    requires
        old(manager).wf(),
        old(loom).wf(),
    ensures
        final(manager).wf(),
        final(loom).wf(),
        old(harbor).wf() ==> final(harbor).wf(),
        match service_index(old(manager).spec_services(), service_id.0) {
            None => {
                &&& r == Err::<(), GroveError>(GroveError::ServiceNotFound)
                &&& *final(manager) == *old(manager) && *final(loom) == *old(loom) && *final(harbor) == *old(harbor)
            },
            Some(i) => if old(manager).spec_services()[i].state == ServiceState::Stopped {
                &&& r == Err::<(), GroveError>(GroveError::InvalidState)
                &&& *final(manager) == *old(manager) && *final(loom) == *old(loom) && *final(harbor) == *old(harbor)
            } else {
                &&& r == Ok::<(), GroveError>(())
                &&& only_state_changed(*final(manager), *old(manager), i, ServiceState::Running)
                &&& terminate_effect(*old(loom), *final(loom), old(manager).spec_services()[i].main_thread_id)
                &&& unmoor_effect(*old(harbor), *final(harbor), old(manager).spec_services()[i].vessel_id)
            },
        },
{
    if manager.find_service(service_id).is_none() {
        return Err(GroveError::ServiceNotFound);
    }
    let ghost m0 = *manager;
    let ghost i = service_index(m0.spec_services(), service_id.0)->0;
    match stop_service(manager, loom, harbor, service_id) {
        Err(e) => return Err(e),
        Ok(()) => {},
    }
    let ghost m1 = *manager;
    proof {
        lemma_index_stable(m1, m0, i, service_id.0);
    }
    match manager.set_service_loading(service_id) {
        Err(e) => return Err(e),
        Ok(()) => {},
    }
    let ghost m2 = *manager;
    proof {
        lemma_index_stable(m2, m1, i, service_id.0);
    }
    let r = start_service(manager, service_id);
    proof {
        assert(same_but_state(manager.spec_services()[i], m0.spec_services()[i]));
    }
    r
}

/// Handle a crash of a service: apply its respawn policy, mark it Faulted, and
/// restart it when the policy allows. Returns whether the service was respawned.
pub fn handle_service_crash<A>(
    manager: &mut GroveManager,
    loom: &mut Scheduler,
    harbor: &mut Harbor<A>,
    service_id: ServiceId,
    current_time: u64,
) -> (r: Result<bool, GroveError>)
    requires
        old(manager).wf(),
        old(loom).wf(),
        service_index(old(manager).spec_services(), service_id.0) matches Some(i)
            ==> old(manager).spec_services()[i].crash_count < u32::MAX,
    ensures
        final(manager).wf(),
        final(loom).wf(),
        old(harbor).wf() ==> final(harbor).wf(),
        final(manager).spec_next_id() == old(manager).spec_next_id(),
        final(manager).spec_services().len() == old(manager).spec_services().len(),
        match service_index(old(manager).spec_services(), service_id.0) {
            None => {
                &&& r == Err::<bool, GroveError>(GroveError::ServiceNotFound)
                &&& *final(manager) == *old(manager) && *final(loom) == *old(loom) && *final(harbor) == *old(harbor)
            },
            Some(i) => {
                let b = old(manager).spec_services()[i];
                &&& forall|k: int|
                    0 <= k < old(manager).spec_services().len() && k != i ==> final(manager).spec_services()[k]
                        == old(manager).spec_services()[k]
                &&& (b.respawn_policy is Always || b.respawn_policy is OnFailure) ==> r == Ok::<bool, GroveError>(true)
                &&& b.respawn_policy is Never ==> r == Ok::<bool, GroveError>(false)
                &&& if b.respawn_allowed() {
                    &&& r == Ok::<bool, GroveError>(true)
                    &&& final(manager).spec_services()[i] == (ServiceInfo {
                        state: ServiceState::Running,
                        crash_count: (b.crash_count + 1) as u32,
                        last_crash_time: current_time,
                        ..b
                    })
                    &&& terminate_effect(*old(loom), *final(loom), b.main_thread_id)
                    &&& unmoor_effect(*old(harbor), *final(harbor), b.vessel_id)
                } else {
                    &&& r == Ok::<bool, GroveError>(false)
                    &&& final(manager).spec_services()[i] == (ServiceInfo { state: ServiceState::Faulted, ..b })
                    &&& *final(loom) == *old(loom) && *final(harbor) == *old(harbor)
                }
            },
        },
{
    let ghost m0 = *manager;
    let should_respawn = match manager.respawn_check(service_id, current_time) {
        Err(e) => return Err(e),
        Ok(b) => b,
    };
    let ghost m1 = *manager;
    let ghost i = service_index(m0.spec_services(), service_id.0)->0;
    proof {
        lemma_index_stable(m1, m0, i, service_id.0);
    }
    match manager.set_service_faulted(service_id) {
        Err(e) => return Err(e),
        Ok(()) => {},
    }
    let ghost m2 = *manager;
    proof {
        lemma_index_stable(m2, m1, i, service_id.0);
    }
    if should_respawn {
        let r = match restart_service(manager, loom, harbor, service_id) {
            Ok(()) => Ok(true),
            Err(_) => Ok(false),
        };
        proof {
            let b = m0.spec_services()[i];
            let a = manager.spec_services()[i];
            assert(a == (ServiceInfo {
                state: ServiceState::Running,
                crash_count: (b.crash_count + 1) as u32,
                last_crash_time: current_time,
                ..b
            }));
        }
        r
    } else {
        proof {
            let b = m0.spec_services()[i];
            let a = manager.spec_services()[i];
            assert(a == (ServiceInfo { state: ServiceState::Faulted, ..b }));
        }
        Ok(false)
    }
}

/// When two registries agree on which identifier sits at every position, a search by
/// identifier gives the same answer in both.
proof fn lemma_index_stable(m1: GroveManager, m0: GroveManager, i: int, id: u64)
    requires
        service_index(m0.spec_services(), id) == Some(i),
        m1.spec_services().len() == m0.spec_services().len(),
        forall|k: int| 0 <= k < m0.spec_services().len() ==> #[trigger] m1.spec_services()[k].id == m0.spec_services()[k].id,
    ensures
        service_index(m1.spec_services(), id) == Some(i),
{
    lemma_index_from_stable(m1.spec_services(), m0.spec_services(), id, 0);
}

proof fn lemma_index_from_stable(
    s1: Seq<super::service::ServiceInfo>,
    s0: Seq<super::service::ServiceInfo>,
    id: u64,
    start: int,
)
    requires
        s1.len() == s0.len(),
        0 <= start,
        forall|k: int| 0 <= k < s0.len() ==> #[trigger] s1[k].id == s0[k].id,
    ensures
        super::manager::service_index_from(s1, id, start) == super::manager::service_index_from(s0, id, start),
    decreases s0.len() - start,
{
    if start < s0.len() {
        assert(s1[start].id == s0[start].id);
        lemma_index_from_stable(s1, s0, id, start + 1);
    }
}

} // verus!
