//! Service state tracking and metadata.
use vstd::prelude::*;
use crate::loom_of_fate::thread::ThreadId;
use crate::loom_of_fate::vessel::VesselId;

verus! {

/// Unique identifier for a Grove service.
#[derive(Debug, Clone, Copy, PartialEq, Eq, Structural, Hash)]
pub struct ServiceId(pub u64);

/// Respawn policy for a service that crashes.
#[derive(Debug, Clone, Copy, PartialEq, Eq, Structural)]
pub enum RespawnPolicy {
    /// Never respawn.
    Never,
    /// Always respawn.
    Always,
    /// Only respawn on abnormal termination.
    OnFailure,
    /// Respawn up to N times, then give up.
    Limited(u32),
}

/// The lifecycle state of a Grove service.
#[derive(Debug, Clone, Copy, PartialEq, Eq, Structural)]
pub enum ServiceState {
    /// Loading (ELF parsing, memory setup).
    Loading,
    /// Running and accepting requests.
    Running,
    /// Stopped gracefully.
    Stopped,
    /// Encountered a fault.
    Faulted,
}

/// Capabilities that can be granted to a Grove service.
#[derive(Debug, Clone, Copy, PartialEq, Eq, Structural)]
pub enum ServiceCapability {
    PhysicalMemory,
    IoPort,
    ThreadCreate,
    MemoryManage,
    Filesystem,
    Graphics,
    Network,
    IpcSend,
    IpcReceive,
}

/// Resource limits for a Grove service.
#[derive(Debug, Clone, Copy, PartialEq, Eq, Structural)]
pub struct ResourceLimits {
    /// Maximum memory the service can allocate (bytes).
    pub max_memory: usize,
    /// Maximum number of threads the service can create.
    pub max_threads: usize,
    /// Maximum CPU time per scheduling period (percent).
    pub max_cpu_percent: u8,
    /// Maximum number of open file handles.
    pub max_file_handles: usize,
    /// Maximum number of IPC messages per second.
    pub max_ipc_rate: u32,
}

impl Default for ResourceLimits {
    /// 64MB memory, 16 threads, 50% CPU, 256 file handles, 10k messages/s.
    fn default() -> (r: Self)
        ensures
            r == (ResourceLimits {
                max_memory: 67108864usize,
                max_threads: 16,
                max_cpu_percent: 50,
                max_file_handles: 256,
                max_ipc_rate: 10000,
            }),
    {
        ResourceLimits {
            max_memory: 67108864,
            max_threads: 16,
            max_cpu_percent: 50,
            max_file_handles: 256,
            max_ipc_rate: 10000,
        }
    }
}

/// Information about a registered Grove service.
pub struct ServiceInfo {
    pub id: ServiceId,
    pub name: String,
    pub state: ServiceState,
    pub vessel_id: VesselId,
    pub main_thread_id: ThreadId,
    pub capabilities: Vec<ServiceCapability>,
    pub limits: ResourceLimits,
    /// Total CPU time consumed (nanoseconds).
    pub cpu_time_used: u64,
    /// Memory currently allocated (bytes).
    pub memory_used: usize,
    /// Threads currently active.
    pub thread_count: usize,
    pub ipc_messages_sent: u64,
    pub ipc_messages_received: u64,
    pub respawn_policy: RespawnPolicy,
    /// Times this service has crashed and been respawned.
    pub crash_count: u32,
    /// Tick count of the last crash.
    pub last_crash_time: u64,
}

/// Two service records agree on everything but the lifecycle state.
pub open spec fn same_but_state(a: ServiceInfo, b: ServiceInfo) -> bool {
    &&& a.id == b.id
    &&& a.name == b.name
    &&& a.vessel_id == b.vessel_id
    &&& a.main_thread_id == b.main_thread_id
    &&& a.capabilities == b.capabilities
    &&& a.limits == b.limits
    &&& a.cpu_time_used == b.cpu_time_used
    &&& a.memory_used == b.memory_used
    &&& a.thread_count == b.thread_count
    &&& a.ipc_messages_sent == b.ipc_messages_sent
    &&& a.ipc_messages_received == b.ipc_messages_received
    &&& a.respawn_policy == b.respawn_policy
    &&& a.crash_count == b.crash_count
    &&& a.last_crash_time == b.last_crash_time
}

/// The service is within its memory and thread limits.
pub open spec fn within_limits_spec(s: ServiceInfo) -> bool {
    s.memory_used <= s.limits.max_memory && s.thread_count <= s.limits.max_threads
}

impl ServiceInfo {
    /// A new service record in the Loading state with one thread and no usage.
    pub fn new(
        id: ServiceId,
        name: String,
        vessel_id: VesselId,
        main_thread_id: ThreadId,
        capabilities: Vec<ServiceCapability>,
        limits: ResourceLimits,
        respawn_policy: RespawnPolicy,
    ) -> (r: Self)
        ensures
            r.id == id,
            r.name == name,
            r.state == ServiceState::Loading,
            r.vessel_id == vessel_id,
            r.main_thread_id == main_thread_id,
            r.capabilities == capabilities,
            r.limits == limits,
            r.cpu_time_used == 0,
            r.memory_used == 0,
            r.thread_count == 1,
            r.ipc_messages_sent == 0,
            r.ipc_messages_received == 0,
            r.respawn_policy == respawn_policy,
            r.crash_count == 0,
            r.last_crash_time == 0,
    {
        ServiceInfo {
            id,
            name,
            state: ServiceState::Loading,
            vessel_id,
            main_thread_id,
            capabilities,
            limits,
            cpu_time_used: 0,
            memory_used: 0,
            thread_count: 1,
            ipc_messages_sent: 0,
            ipc_messages_received: 0,
            respawn_policy,
            crash_count: 0,
            last_crash_time: 0,
        }
    }

    /// Check if this service has a specific capability.
    pub fn has_capability(&self, cap: ServiceCapability) -> (r: bool)
        ensures
            r == self.capabilities@.contains(cap),
    {
        let mut i: usize = 0;
        while i < self.capabilities.len()
            invariant
                i <= self.capabilities@.len(),
                forall|k: int| 0 <= k < i ==> self.capabilities@[k] != cap,
            decreases self.capabilities@.len() - i,
        {
            if self.capabilities[i] == cap {
                assert(self.capabilities@[i as int] == cap);
                return true;
            }
            i = i + 1;
        }
        false
    }

    /// Check if this service is within its memory and thread limits.
    pub fn within_limits(&self) -> (r: bool)
        ensures
            r == within_limits_spec(*self),
    {
        self.memory_used <= self.limits.max_memory && self.thread_count <= self.limits.max_threads
    }

    /// Mark the service as running.
    pub fn set_running(&mut self)
        ensures
            final(self).state == ServiceState::Running,
            same_but_state(*final(self), *old(self)),
    {
        self.state = ServiceState::Running;
    }

    /// Mark the service as faulted.
    pub fn set_faulted(&mut self)
        ensures
            final(self).state == ServiceState::Faulted,
            same_but_state(*final(self), *old(self)),
    {
        self.state = ServiceState::Faulted;
    }

    /// Mark the service as loading again, ready to be started.
    pub fn set_loading(&mut self)
        ensures
            final(self).state == ServiceState::Loading,
            same_but_state(*final(self), *old(self)),
    {
        self.state = ServiceState::Loading;
    }

    /// Mark the service as stopped.
    pub fn set_stopped(&mut self)
        ensures
            final(self).state == ServiceState::Stopped,
            same_but_state(*final(self), *old(self)),
    {
        self.state = ServiceState::Stopped;
    }

    /// Whether the policy allows a respawn after a crash at `current_time`.
    pub open spec fn respawn_allowed(self) -> bool {
        match self.respawn_policy {
            RespawnPolicy::Never => false,
            RespawnPolicy::Always => true,
            RespawnPolicy::OnFailure => true,
            RespawnPolicy::Limited(max) => self.crash_count < max,
        }
    }

    /// Law: a crash is a failure, so a service is respawned after it under the
    /// Always and OnFailure policies, never under Never, and under Limited(max)
    /// exactly while fewer than `max` crashes have been counted.
    pub proof fn lemma_respawn_by_policy(self)
        ensures
            self.respawn_policy is Never ==> !self.respawn_allowed(),
            self.respawn_policy is Always ==> self.respawn_allowed(),
            self.respawn_policy is OnFailure ==> self.respawn_allowed(),
            self.respawn_policy matches RespawnPolicy::Limited(max) ==> (self.respawn_allowed() <==> self.crash_count
                < max),
    {
    }

    /// Check if this service should be respawned after a crash; if so, count the crash
    /// and record its time.
    pub fn should_respawn(&mut self, current_time: u64) -> (r: bool)
        requires
            old(self).crash_count < u32::MAX,
        ensures
            r == old(self).respawn_allowed(),
            old(self).respawn_policy is Never ==> !r,
            old(self).respawn_policy is Always ==> r,
            old(self).respawn_policy is OnFailure ==> r,
            old(self).respawn_policy matches RespawnPolicy::Limited(max) ==> r == (old(self).crash_count < max),
            r ==> *final(self) == (ServiceInfo {
                crash_count: (old(self).crash_count + 1) as u32,
                last_crash_time: current_time,
                ..*old(self)
            }),
            !r ==> *final(self) == *old(self),
    {
        match self.respawn_policy {
            RespawnPolicy::Never => false,
            RespawnPolicy::Always => {
                self.crash_count = self.crash_count + 1;
                self.last_crash_time = current_time;
                true
            },
            RespawnPolicy::OnFailure => {
                self.crash_count = self.crash_count + 1;
                self.last_crash_time = current_time;
                true
            },
            RespawnPolicy::Limited(max) => {
                if self.crash_count >= max {
                    false
                } else {
                    self.crash_count = self.crash_count + 1;
                    self.last_crash_time = current_time;
                    true
                }
            },
        }
    }
}

} // verus!
