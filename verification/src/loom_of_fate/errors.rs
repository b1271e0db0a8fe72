//! Error and diagnostic types of the Loom of Fate.
use vstd::prelude::*;
use super::thread::{ThreadPriority, ThreadState};

verus! {

/// Errors of thread management.
#[derive(Debug, Clone, Copy, PartialEq, Eq, Structural)]
pub enum LoomError {
    OutOfThreads,
    ThreadNotFound,
    InvalidPriority,
    StackAllocationFailed,
    VesselNotFound,
}

/// Debug information about a thread's stack layout.
#[derive(Debug, Clone, Copy)]
pub struct ThreadDebugInfo {
    pub id: u64,
    pub stack_bottom: u64,
    pub stack_top: u64,
    pub stack_size: u64,
    pub state: ThreadState,
    pub priority: ThreadPriority,
}

/// Syscall errors, returned to user space as negative numbers.
#[derive(Debug, Clone, Copy, PartialEq, Eq, Structural)]
pub enum SyscallError {
    /// Invalid syscall number.
    ENOSYS,
    /// Bad address (pointer validation failed).
    EFAULT,
    /// Invalid argument.
    EINVAL,
    /// Permission denied.
    EPERM,
    /// No such process.
    ESRCH,
}

impl SyscallError {
    /// The value returned to user space for this error.
    pub fn code(&self) -> (r: i64)
        ensures
            r == match *self {
                SyscallError::ENOSYS => -38i64,
                SyscallError::EFAULT => -14i64,
                SyscallError::EINVAL => -22i64,
                SyscallError::EPERM => -1i64,
                SyscallError::ESRCH => -3i64,
            },
    {
        match self {
            SyscallError::ENOSYS => -38,
            SyscallError::EFAULT => -14,
            SyscallError::EINVAL => -22,
            SyscallError::EPERM => -1,
            SyscallError::ESRCH => -3,
        }
    }
}

} // verus!
