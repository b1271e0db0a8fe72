//! # Per-CPU Data Structures
//!
//! CPU-local data reached through the GS register: the kernel stack used on
//! syscall entry, the saved user stack, and the current thread.
use vstd::prelude::*;
use crate::loom_of_fate::thread::ThreadId;

verus! {

/// Per-CPU data structure.
pub struct PerCpuData {
    /// Address of this structure (read through `gs:[0]`).
    pub self_ptr: u64,
    /// Top of the kernel stack for this CPU (used during syscall entry).
    pub kernel_stack_top: u64,
    /// Saved user stack pointer during a syscall.
    pub user_stack_saved: u64,
    /// Currently executing thread on this CPU.
    pub current_thread_id: Option<ThreadId>,
    /// The CPU ID (0-based index).
    pub cpu_id: u32,
    /// Interrupt nesting depth.
    pub interrupt_depth: u32,
    /// Syscall count for this CPU.
    pub syscall_count: u64,
}

impl PerCpuData {
    /// Create a new PerCpuData structure for a CPU; its self pointer is still null.
    pub fn new(cpu_id: u32, kernel_stack_top: u64) -> (r: Self)
        ensures
            r.self_ptr == 0,
            r.kernel_stack_top == kernel_stack_top,
            r.user_stack_saved == 0,
            r.current_thread_id is None,
            r.cpu_id == cpu_id,
            r.interrupt_depth == 0,
            r.syscall_count == 0,
    {
        PerCpuData {
            self_ptr: 0,
            kernel_stack_top,
            user_stack_saved: 0,
            current_thread_id: None,
            cpu_id,
            interrupt_depth: 0,
            syscall_count: 0,
        }
    }
}

} // verus!
