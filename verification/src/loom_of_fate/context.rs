//! # Thread Context
//!
//! The complete register state of a thread, as saved and restored on a switch.
use vstd::prelude::*;

verus! {

/// The complete state of a thread.
#[derive(Debug, Clone, Copy, PartialEq, Eq, Structural)]
pub struct ThreadContext {
    pub r15: u64,
    pub r14: u64,
    pub r13: u64,
    pub r12: u64,
    pub rbp: u64,
    pub rbx: u64,
    pub r11: u64,
    pub r10: u64,
    pub r9: u64,
    pub r8: u64,
    pub rax: u64,
    pub rcx: u64,
    pub rdx: u64,
    pub rsi: u64,
    pub rdi: u64,
    /// Instruction pointer: where to resume.
    pub rip: u64,
    /// Code segment.
    pub cs: u64,
    /// CPU flags.
    pub rflags: u64,
    /// Stack pointer.
    pub rsp: u64,
    /// Stack segment.
    pub ss: u64,
    /// Page table base (physical address); 0 means "keep the current page tables".
    pub cr3: u64,
}

/// A context whose general purpose registers are all zero, with the given special registers.
pub open spec fn context_with(rip: u64, cs: u64, rflags: u64, rsp: u64, ss: u64, cr3: u64) -> ThreadContext {
    ThreadContext {
        r15: 0,
        r14: 0,
        r13: 0,
        r12: 0,
        rbp: 0,
        rbx: 0,
        r11: 0,
        r10: 0,
        r9: 0,
        r8: 0,
        rax: 0,
        rcx: 0,
        rdx: 0,
        rsi: 0,
        rdi: 0,
        rip,
        cs,
        rflags,
        rsp,
        ss,
        cr3,
    }
}

impl ThreadContext {
    /// A kernel-thread context starting at `entry_point` with its stack at `stack_top`:
    /// kernel code/data selectors (0x08/0x10), interrupts enabled (RFLAGS 0x202),
    /// and the current page tables.
    pub fn new(entry_point: u64, stack_top: u64) -> (r: Self)
        ensures
            r == context_with(entry_point, 0x08, 0x202, stack_top, 0x10, 0),
    {
        ThreadContext {
            r15: 0,
            r14: 0,
            r13: 0,
            r12: 0,
            rbp: 0,
            rbx: 0,
            r11: 0,
            r10: 0,
            r9: 0,
            r8: 0,
            rax: 0,
            rcx: 0,
            rdx: 0,
            rsi: 0,
            rdi: 0,
            rip: entry_point,
            cs: 0x08,
            rflags: 0x202,
            rsp: stack_top,
            ss: 0x10,
            cr3: 0,
        }
    }

    /// An all-zero context.
    pub fn empty() -> (r: Self)
        ensures
            r == context_with(0, 0, 0, 0, 0, 0),
    {
        ThreadContext {
            r15: 0,
            r14: 0,
            r13: 0,
            r12: 0,
            rbp: 0,
            rbx: 0,
            r11: 0,
            r10: 0,
            r9: 0,
            r8: 0,
            rax: 0,
            rcx: 0,
            rdx: 0,
            rsi: 0,
            rdi: 0,
            rip: 0,
            cs: 0,
            rflags: 0,
            rsp: 0,
            ss: 0,
            cr3: 0,
        }
    }

    /// A Ring 3 context: user code (0x20 with RPL 3) and data (0x18 with RPL 3) selectors, interrupts
    /// enabled, the user stack, and the vessel's page tables.
    pub fn new_user_mode(entry_point: u64, user_stack_top: u64, page_table_phys: u64) -> (r: Self)
        ensures
            r == context_with(entry_point, 0x23, 0x202, user_stack_top, 0x1B, page_table_phys),
    {
        ThreadContext {
            r15: 0,
            r14: 0,
            r13: 0,
            r12: 0,
            rbp: 0,
            rbx: 0,
            r11: 0,
            r10: 0,
            r9: 0,
            r8: 0,
            rax: 0,
            rcx: 0,
            rdx: 0,
            rsi: 0,
            rdi: 0,
            rip: entry_point,
            cs: 0x23,
            rflags: 0x202,
            rsp: user_stack_top,
            ss: 0x1B,
            cr3: page_table_phys,
        }
    }

    /// A Ring 1 context: service code (0x28 with RPL 1) and data (0x30 with RPL 1) selectors, interrupts
    /// enabled with IOPL 1 (RFLAGS 0x1202), the service stack, and its page tables.
    pub fn new_service_mode(entry_point: u64, service_stack_top: u64, page_table_phys: u64) -> (r: Self)
        ensures
            r == context_with(entry_point, 0x29, 0x1202, service_stack_top, 0x31, page_table_phys),
    {
        ThreadContext {
            r15: 0,
            r14: 0,
            r13: 0,
            r12: 0,
            rbp: 0,
            rbx: 0,
            r11: 0,
            r10: 0,
            r9: 0,
            r8: 0,
            rax: 0,
            rcx: 0,
            rdx: 0,
            rsi: 0,
            rdi: 0,
            rip: entry_point,
            cs: 0x29,
            rflags: 0x1202,
            rsp: service_stack_top,
            ss: 0x31,
            cr3: page_table_phys,
        }
    }
}

} // verus!
