//! Vessel identifiers and states - the process abstraction.
use vstd::prelude::*;
use super::thread::ThreadId;

verus! {

/// A unique identifier for a Vessel (process).
#[derive(Debug, Clone, Copy, PartialEq, Eq, Structural, Hash)]
pub struct VesselId(pub u64);

/// The state of a Vessel in its lifecycle.
#[derive(Debug, Clone, Copy, PartialEq, Eq, Structural)]
pub enum VesselState {
    /// Vessel is being created.
    Nascent,
    /// Vessel is actively running.
    Weaving,
    /// Vessel is blocked/idle.
    Resting,
    /// Vessel is exiting.
    Fading,
    /// Vessel has exited but is not yet reaped.
    Vanished,
}

/// Statistics about the Harbor (the Vessel registry).
#[derive(Debug, Clone, Copy)]
pub struct HarborStats {
    pub total_vessels: usize,
    pub nascent: usize,
    pub weaving: usize,
    pub resting: usize,
    pub fading: usize,
    pub vanished: usize,
}


/// Size of a Vessel's kernel stack in bytes.
pub const KERNEL_STACK_SIZE: usize = 16384;

/// A Vessel: a process with its own address space (of type `A`), an entry point,
/// the kernel stack used when it traps, its main thread and its Fate (role).
pub struct Vessel<A> {
    /// The Vessel's identifier.
    pub beacon: VesselId,
    /// The Vessel that created this one.
    pub parent: Option<VesselId>,
    /// The Vessel's address space.
    pub address_space: A,
    /// Physical address of the top-level page table (0 for kernel Vessels).
    pub page_table_phys: u64,
    /// Where execution begins.
    pub entry_point: u64,
    /// Top of the kernel stack used on traps from this Vessel.
    pub kernel_stack: u64,
    /// The Vessel's main thread.
    pub main_thread: ThreadId,
    /// The Vessel's Fate (role) name.
    pub fate: String,
    /// Lifecycle state.
    pub state: VesselState,
}

impl<A> Vessel<A> {
    /// A new Vessel in the Nascent state.
    pub fn new(
        beacon: VesselId,
        parent: Option<VesselId>,
        address_space: A,
        page_table_phys: u64,
        entry_point: u64,
        kernel_stack: u64,
        main_thread: ThreadId,
        fate: String,
    ) -> (r: Self)
        ensures
            r.beacon == beacon,
            r.parent == parent,
            r.address_space == address_space,
            r.page_table_phys == page_table_phys,
            r.entry_point == entry_point,
            r.kernel_stack == kernel_stack,
            r.main_thread == main_thread,
            r.fate == fate,
            r.state == VesselState::Nascent,
    {
        Vessel {
            beacon,
            parent,
            address_space,
            page_table_phys,
            entry_point,
            kernel_stack,
            main_thread,
            fate,
            state: VesselState::Nascent,
        }
    }

    /// The Vessel's identifier.
    pub fn id(&self) -> (r: VesselId)
        ensures
            r == self.beacon,
    {
        self.beacon
    }

    /// The lifecycle state.
    pub fn state(&self) -> (r: VesselState)
        ensures
            r == self.state,
    {
        self.state
    }

    /// Change the lifecycle state.
    pub fn set_state(&mut self, state: VesselState)
        ensures
            *final(self) == (Vessel { state: state, ..*old(self) }),
    {
        self.state = state;
    }

    /// Whether the Vessel runs in user mode (has its own page table).
    pub fn is_user_mode(&self) -> (r: bool)
        ensures
            r == (self.page_table_phys != 0),
    {
        self.page_table_phys != 0
    }

    /// The entry point.
    pub fn entry_point(&self) -> (r: u64)
        ensures
            r == self.entry_point,
    {
        self.entry_point
    }

    /// The address space.
    pub fn address_space(&self) -> (r: &A)
        ensures
            *r == self.address_space,
    {
        &self.address_space
    }

    /// The parent Vessel.
    pub fn parent(&self) -> (r: Option<VesselId>)
        ensures
            r == self.parent,
    {
        self.parent
    }

    /// The Fate (role) name.
    pub fn fate(&self) -> (r: &str)
        ensures
            r@ == self.fate@,
    {
        self.fate.as_str()
    }

    /// The main thread.
    pub fn main_thread(&self) -> (r: ThreadId)
        ensures
            r == self.main_thread,
    {
        self.main_thread
    }

    /// Top of the kernel stack.
    pub fn kernel_stack(&self) -> (r: u64)
        ensures
            r == self.kernel_stack,
    {
        self.kernel_stack
    }

    /// Physical address of the top-level page table.
    pub fn page_table_phys(&self) -> (r: u64)
        ensures
            r == self.page_table_phys,
    {
        self.page_table_phys
    }
}

} // verus!
