use heartwood::groves::lifecycle::{
    handle_service_crash, load_service, restart_service, start_service, stop_service, ServiceConfig,
};
use heartwood::loom_of_fate::harbor::Harbor;
use heartwood::loom_of_fate::scheduler::Scheduler;
use heartwood::loom_of_fate::thread::{ThreadPriority, ThreadState};
use heartwood::groves::manager::{GroveError, GroveManager};
use heartwood::groves::service::{ResourceLimits, RespawnPolicy, ServiceCapability, ServiceId, ServiceState};
use heartwood::loom_of_fate::thread::ThreadId;
use heartwood::loom_of_fate::vessel::VesselId;

fn register(m: &mut GroveManager, name: &str, policy: RespawnPolicy) -> Result<ServiceId, GroveError> {
    m.register_service(
        String::from(name),
        VesselId(7),
        ThreadId(9),
        vec![ServiceCapability::IpcSend, ServiceCapability::Filesystem],
        ResourceLimits::default(),
        policy,
    )
}

#[test]
fn register_assigns_increasing_ids() {
    let mut m = GroveManager::new();
    let a = register(&mut m, "world-tree", RespawnPolicy::Always).unwrap();
    let b = register(&mut m, "gatekeeper", RespawnPolicy::Never).unwrap();
    assert_eq!(a, ServiceId(1));
    assert_eq!(b, ServiceId(2));
    assert_eq!(m.service_count(), 2);
    assert!(matches!(register(&mut m, "world-tree", RespawnPolicy::Never), Err(GroveError::InvalidServiceName)));
    let s = m.find_service_by_name("gatekeeper").unwrap();
    assert_eq!(s.id, ServiceId(2));
    assert_eq!(s.state, ServiceState::Loading);
    assert_eq!(s.thread_count, 1);
    assert!(m.find_service_by_name("nobody").is_none());
    let ids: Vec<ServiceId> = m.all_services().iter().map(|s| s.id).collect();
    assert_eq!(ids, vec![ServiceId(1), ServiceId(2)]);
}

#[test]
fn registry_limit() {
    let mut m = GroveManager::new();
    for i in 0..64 {
        register(&mut m, &format!("svc{}", i), RespawnPolicy::Never).unwrap();
    }
    assert!(matches!(register(&mut m, "one-more", RespawnPolicy::Never), Err(GroveError::TooManyServices)));
}

/// A registry with one loaded service of the given policy, its Vessel moored and
/// its main thread spawned.
fn loaded(policy: RespawnPolicy) -> (GroveManager, Scheduler, Harbor<u32>, ServiceId) {
    let mut harbor: Harbor<u32> = Harbor::new();
    let mut loom = Scheduler::new();
    let mut m = GroveManager::new();
    let mut c = config("world-tree");
    c.respawn_policy = policy;
    let id = load_service(c, 0, &mut harbor, &mut loom, &mut m).unwrap();
    (m, loom, harbor, id)
}

#[test]
fn lifecycle_transitions() {
    let (mut m, mut loom, mut harbor, id) = loaded(RespawnPolicy::Always);
    let thread = m.find_service(id).unwrap().main_thread_id;
    assert_eq!(start_service(&mut m, id), Ok(()));
    assert_eq!(m.find_service(id).unwrap().state, ServiceState::Running);
    assert_eq!(start_service(&mut m, id), Err(GroveError::InvalidState));
    assert_eq!(m.services_in_state(ServiceState::Running), vec![id]);
    assert_eq!(stop_service(&mut m, &mut loom, &mut harbor, id), Ok(()));
    assert_eq!(m.find_service(id).unwrap().state, ServiceState::Stopped);
    assert_eq!(loom.find_thread(thread).unwrap().state, ThreadState::Fading);
    assert_eq!(harbor.vessel_count(), 0);
    assert_eq!(stop_service(&mut m, &mut loom, &mut harbor, id), Err(GroveError::InvalidState));
    assert_eq!(stop_service(&mut m, &mut loom, &mut harbor, ServiceId(99)), Err(GroveError::ServiceNotFound));
    assert_eq!(start_service(&mut m, ServiceId(99)), Err(GroveError::ServiceNotFound));
    assert_eq!(m.unregister_service(id), Ok(()));
    assert_eq!(m.unregister_service(id), Err(GroveError::ServiceNotFound));
    assert_eq!(m.service_count(), 0);
}

#[test]
fn restart_stops_then_starts() {
    let (mut m, mut loom, mut harbor, id) = loaded(RespawnPolicy::Always);
    start_service(&mut m, id).unwrap();
    assert_eq!(restart_service(&mut m, &mut loom, &mut harbor, id), Ok(()));
    assert_eq!(m.find_service(id).unwrap().state, ServiceState::Running);
    assert_eq!(harbor.vessel_count(), 0);
    stop_service(&mut m, &mut loom, &mut harbor, id).unwrap();
    assert_eq!(restart_service(&mut m, &mut loom, &mut harbor, id), Err(GroveError::InvalidState));
    assert_eq!(m.find_service(id).unwrap().state, ServiceState::Stopped);
    assert_eq!(restart_service(&mut m, &mut loom, &mut harbor, ServiceId(7)), Err(GroveError::ServiceNotFound));
}

#[test]
fn crash_handling_applies_policy() {
    let (mut m, mut loom, mut harbor, a) = loaded(RespawnPolicy::Limited(1));
    start_service(&mut m, a).unwrap();
    assert_eq!(handle_service_crash(&mut m, &mut loom, &mut harbor, a, 500), Ok(true));
    let s = m.find_service(a).unwrap();
    assert_eq!(s.crash_count, 1);
    assert_eq!(s.last_crash_time, 500);
    assert_eq!(s.state, ServiceState::Running);
    assert_eq!(handle_service_crash(&mut m, &mut loom, &mut harbor, a, 600), Ok(false));
    let s = m.find_service(a).unwrap();
    assert_eq!(s.crash_count, 1);
    assert_eq!(s.state, ServiceState::Faulted);

    let (mut m, mut loom, mut harbor, b) = loaded(RespawnPolicy::Never);
    start_service(&mut m, b).unwrap();
    assert_eq!(handle_service_crash(&mut m, &mut loom, &mut harbor, b, 700), Ok(false));
    assert_eq!(m.find_service(b).unwrap().state, ServiceState::Faulted);
    assert_eq!(m.find_service(b).unwrap().crash_count, 0);
    assert_eq!(harbor.vessel_count(), 1);
    assert_eq!(handle_service_crash(&mut m, &mut loom, &mut harbor, ServiceId(42), 1), Err(GroveError::ServiceNotFound));

    let (mut m, mut loom, mut harbor, c) = loaded(RespawnPolicy::Always);
    start_service(&mut m, c).unwrap();
    assert_eq!(handle_service_crash(&mut m, &mut loom, &mut harbor, c, 9), Ok(true));
    assert_eq!(m.find_service(c).unwrap().state, ServiceState::Running);
    assert_eq!(m.find_service(c).unwrap().crash_count, 1);
}

#[test]
fn capabilities_and_resource_limits() {
    let mut m = GroveManager::new();
    let id = register(&mut m, "fs", RespawnPolicy::Never).unwrap();
    assert_eq!(m.check_capability(id, ServiceCapability::Filesystem), Ok(true));
    assert_eq!(m.check_capability(id, ServiceCapability::Network), Ok(false));
    assert_eq!(m.check_capability(ServiceId(5), ServiceCapability::Network), Err(GroveError::ServiceNotFound));
    assert_eq!(m.update_resource_usage(id, 10, 1024, 2), Ok(()));
    assert_eq!(m.update_resource_usage(id, 20, 65 * 1024 * 1024, 2), Err(GroveError::ResourceLimitExceeded));
    let s = m.find_service(id).unwrap();
    assert_eq!(s.memory_used, 65 * 1024 * 1024);
    assert_eq!(s.cpu_time_used, 20);
    assert_eq!(m.update_resource_usage(id, 20, 0, 17), Err(GroveError::ResourceLimitExceeded));
    assert_eq!(m.set_service_faulted(id), Ok(()));
    assert_eq!(m.services_in_state(ServiceState::Faulted), vec![id]);
}

#[test]
fn find_service_mut_edits_in_place() {
    let mut m = GroveManager::new();
    let id = register(&mut m, "scribe", RespawnPolicy::Never).unwrap();
    {
        let s = m.find_service_mut(id).unwrap();
        assert_eq!(s.id, id);
        s.main_thread_id = ThreadId(42);
    }
    assert_eq!(m.find_service(id).unwrap().main_thread_id, ThreadId(42));
    assert!(m.find_service_mut(ServiceId(99)).is_none());
}

fn config(name: &str) -> ServiceConfig {
    ServiceConfig {
        name: String::from(name),
        entry_point: 0x40_0000,
        stack_top: 0x7000_0000,
        page_table_phys: 0x20_0000,
        priority: ThreadPriority::High,
        capabilities: vec![ServiceCapability::IpcSend],
        limits: ResourceLimits::default(),
        respawn_policy: RespawnPolicy::OnFailure,
    }
}

#[test]
fn load_service_moors_spawns_and_registers() {
    let mut harbor: Harbor<u32> = Harbor::new();
    let mut loom = Scheduler::new();
    let mut manager = GroveManager::new();
    let id = load_service(config("world-tree"), 7, &mut harbor, &mut loom, &mut manager).unwrap();
    assert_eq!(id, ServiceId(1));
    let vessel = harbor.find_vessel(VesselId(1)).unwrap();
    assert_eq!(vessel.address_space, 7);
    assert_eq!(vessel.page_table_phys, 0x20_0000);
    assert_eq!(vessel.kernel_stack, 0x7000_0000);
    assert_eq!(vessel.fate, "world-tree");
    let service = manager.find_service(id).unwrap();
    assert_eq!(service.state, ServiceState::Loading);
    assert_eq!(service.vessel_id, VesselId(1));
    assert_eq!(service.main_thread_id, vessel.main_thread);
    let thread = loom.find_thread(vessel.main_thread).unwrap();
    assert_eq!(thread.vessel_id(), Some(VesselId(1)));
    assert_eq!(thread.context().rip, 0x40_0000);
    assert_eq!(thread.context().rsp, 0x7000_0000);
    assert_eq!(thread.context().cr3, 0x20_0000);
    assert_eq!(thread.context().cs, 0x29);

    // A second service with the same name still gets a Vessel and a thread,
    // but its registration is refused.
    let again = load_service(config("world-tree"), 8, &mut harbor, &mut loom, &mut manager);
    assert_eq!(again, Err(GroveError::InvalidServiceName));
    assert_eq!(harbor.vessel_count(), 2);
    assert_eq!(manager.service_count(), 1);
}

#[test]
fn ids_count_successful_registrations() {
    let mut m = GroveManager::new();
    let a = register(&mut m, "world-tree", RespawnPolicy::Always).unwrap();
    assert!(register(&mut m, "world-tree", RespawnPolicy::Always).is_err());
    assert_eq!(m.unregister_service(a), Ok(()));
    let b = register(&mut m, "gatekeeper", RespawnPolicy::Never).unwrap();
    let c = register(&mut m, "world-tree", RespawnPolicy::Never).unwrap();
    assert_eq!((a, b, c), (ServiceId(1), ServiceId(2), ServiceId(3)));
}
