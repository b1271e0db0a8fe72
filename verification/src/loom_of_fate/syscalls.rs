//! System call decoding and argument checks (AethelOS ABI).
//!
//! A call's number arrives in RAX and its arguments in RDI, RSI, RDX; the result
//! goes back in RAX, non-negative on success and a negative error code on failure.
use vstd::prelude::*;
use super::errors::SyscallError;
use super::scheduler::{Scheduler, thread_index, without};
use super::thread::{ThreadId, ThreadState};

verus! {

/// Yield the CPU to another thread.
pub const SYS_YIELD: u64 = 0;
/// Write to a file descriptor.
pub const SYS_WRITE: u64 = 1;
/// Exit the current thread.
pub const SYS_EXIT: u64 = 2;
/// Get the process (Vessel) identifier.
pub const SYS_GETPID: u64 = 3;
/// Get the thread identifier.
pub const SYS_GETTID: u64 = 4;

/// First address above user space.
pub const USER_SPACE_LIMIT: u64 = 0x8000_0000_0000;
/// Largest write accepted at once.
pub const MAX_WRITE: u64 = 4096;

/// A decoded system call.
#[derive(Debug, Clone, Copy, PartialEq, Eq, Structural)]
pub enum Syscall {
    Yield,
    Write { fd: u64, buf: u64, count: u64 },
    Exit { code: i32 },
    GetPid,
    GetTid,
}

/// Decode a system call from its number and first three arguments; `ENOSYS` for
/// an unknown number. The exit code is the low 32 bits of the first argument.
pub fn decode_syscall(syscall_num: u64, arg1: u64, arg2: u64, arg3: u64) -> (r: Result<Syscall, SyscallError>)
    ensures
        r == (if syscall_num == SYS_YIELD {
            Ok(Syscall::Yield)
        } else if syscall_num == SYS_WRITE {
            Ok(Syscall::Write { fd: arg1, buf: arg2, count: arg3 })
        } else if syscall_num == SYS_EXIT {
            Ok(Syscall::Exit { code: arg1 as i32 })
        } else if syscall_num == SYS_GETPID {
            Ok(Syscall::GetPid)
        } else if syscall_num == SYS_GETTID {
            Ok(Syscall::GetTid)
        } else {
            Err(SyscallError::ENOSYS)
        }),
{
    if syscall_num == SYS_YIELD {
        Ok(Syscall::Yield)
    } else if syscall_num == SYS_WRITE {
        Ok(Syscall::Write { fd: arg1, buf: arg2, count: arg3 })
    } else if syscall_num == SYS_EXIT {
        Ok(Syscall::Exit { code: arg1 as i32 })
    } else if syscall_num == SYS_GETPID {
        Ok(Syscall::GetPid)
    } else if syscall_num == SYS_GETTID {
        Ok(Syscall::GetTid)
    } else {
        Err(SyscallError::ENOSYS)
    }
}

/// Check the arguments of a write: only stdout (1) and stderr (2), at most 4096
/// bytes, and a buffer starting in user space. Returns the number of bytes to write.
pub fn check_write(fd: u64, buf: u64, count: u64) -> (r: Result<u64, SyscallError>)
    ensures
        r == (if fd != 1 && fd != 2 {
            Err(SyscallError::EINVAL)
        } else if count > MAX_WRITE {
            Err(SyscallError::EINVAL)
        } else if buf >= USER_SPACE_LIMIT {
            Err(SyscallError::EFAULT)
        } else {
            Ok(count)
        }),
{
    if fd != 1 && fd != 2 {
        return Err(SyscallError::EINVAL);
    }
    if count > MAX_WRITE {
        return Err(SyscallError::EINVAL);
    }
    if buf >= USER_SPACE_LIMIT {
        return Err(SyscallError::EFAULT);
    }
    Ok(count)
}

/// Check that `[ptr, ptr + len)` lies in user space (ending strictly below the
/// user-space limit).
pub fn validate_user_pointer(ptr: u64, len: usize) -> (r: Result<(), SyscallError>)
    ensures
        r == (if ptr < USER_SPACE_LIMIT && ptr + len < USER_SPACE_LIMIT {
            Ok(())
        } else {
            Err(SyscallError::EFAULT)
        }),
{
    if ptr >= USER_SPACE_LIMIT {
        return Err(SyscallError::EFAULT);
    }
    let end = match ptr.checked_add(len as u64) {
        Some(e) => e,
        None => return Err(SyscallError::EFAULT),
    };
    if end >= USER_SPACE_LIMIT {
        return Err(SyscallError::EFAULT);
    }
    Ok(())
}

/// SYS_GETTID: the running thread's identifier, or 0 when none runs.
pub fn sys_gettid(current: Option<ThreadId>) -> (r: i64)
    ensures
        r == (match current {
            Some(t) => t.0 as i64,
            None => 0,
        }),
{
    match current {
        Some(t) => t.0 as i64,
        None => 0,
    }
}

/// SYS_GETPID: the Vessel identifier of the running thread; every thread reports
/// Vessel 1 for now, and 0 is returned when no thread runs.
pub fn sys_getpid(current: Option<ThreadId>) -> (r: i64)
    ensures
        r == (if current is Some {
            1i64
        } else {
            0i64
        }),
{
    if current.is_some() {
        1
    } else {
        0
    }
}

/// SYS_EXIT, scheduler part: the running thread fades away and is never scheduled
/// again. Returns the thread that exited, if one was running.
pub fn exit_current(loom: &mut Scheduler) -> (r: Option<ThreadId>)
    requires
        old(loom).wf(),
    ensures
        final(loom).wf(),
        r == old(loom).spec_current(),
        final(loom).spec_current() == old(loom).spec_current(),
        final(loom).spec_threads().len() == old(loom).spec_threads().len(),
        match r {
            None => *final(loom) == *old(loom),
            Some(t) => {
                let i = thread_index(old(loom).spec_threads(), t.0)->0;
                &&& final(loom).spec_threads()[i].state == ThreadState::Fading
                &&& final(loom).spec_ready() == without(old(loom).spec_ready(), t)
            },
        },
{
    match loom.current_thread_id() {
        None => None,
        Some(t) => {
            proof {
                loom.lemma_wf();
            }
            let _ = loom.terminate_thread(t);
            Some(t)
        },
    }
}

} // verus!
