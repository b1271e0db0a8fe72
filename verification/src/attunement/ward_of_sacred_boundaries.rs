//! # The Ward of Sacred Boundaries
//!
//! User pointers must point into user space (below the canonical hole) and the
//! region they describe must stay there.
use vstd::prelude::*;

verus! {

/// Last address of user space.
pub const USER_SPACE_END: u64 = 0x0000_7FFF_FFFF_FFFF;

/// First address past user space: a region `[addr, addr + size)` lies in user
/// space when `addr + size` is at most this.
pub const USER_SPACE_LIMIT: u64 = 0x0000_8000_0000_0000;

/// Kernel space start (higher half).
pub const KERNEL_SPACE_START: u64 = 0xFFFF_8000_0000_0000;

/// Error types for Ward operations.
#[derive(Debug, Clone, Copy, PartialEq, Eq, Structural)]
pub enum WardError {
    /// Pointer is in kernel space (forbidden for user pointers).
    PointerInKernelSpace,
    /// Pointer is null.
    NullPointer,
    /// Region overflows into kernel space.
    RegionOverflow,
    /// CPU does not support required features.
    UnsupportedCpu,
    /// Copy operation failed.
    CopyFailed,
}

impl WardError {
    /// Human-readable description of the error.
    pub fn message(&self) -> (r: &'static str)
        ensures
            r@ == match *self {
                WardError::PointerInKernelSpace => "Mortal pointer trespasses in sacred realm"@,
                WardError::NullPointer => "Mortal offers void as truth"@,
                WardError::RegionOverflow => "Mortal's scroll breaches the boundary"@,
                WardError::UnsupportedCpu => "The ancient stones lack the Ward's wisdom"@,
                WardError::CopyFailed => "Sanctification ritual failed"@,
            },
    {
        match self {
            WardError::PointerInKernelSpace => "Mortal pointer trespasses in sacred realm",
            WardError::NullPointer => "Mortal offers void as truth",
            WardError::RegionOverflow => "Mortal's scroll breaches the boundary",
            WardError::UnsupportedCpu => "The ancient stones lack the Ward's wisdom",
            WardError::CopyFailed => "Sanctification ritual failed",
        }
    }
}

/// The outcome of validating the region `[addr, addr + size)` as user memory.
pub open spec fn mortal_check(addr: u64, size: usize) -> Result<(), WardError> {
    if addr == 0 {
        Err(WardError::NullPointer)
    } else if addr >= KERNEL_SPACE_START {
        Err(WardError::PointerInKernelSpace)
    } else if addr + size > u64::MAX || addr + size > USER_SPACE_LIMIT {
        Err(WardError::RegionOverflow)
    } else {
        Ok(())
    }
}

/// Validate a user-space pointer and the region it points to.
pub fn validate_mortal_pointer(addr: u64, size: usize) -> (r: Result<(), WardError>)
    ensures
        r == mortal_check(addr, size),
{
    if addr == 0 {
        return Err(WardError::NullPointer);
    }
    if addr >= KERNEL_SPACE_START {
        return Err(WardError::PointerInKernelSpace);
    }
    let end_addr = match addr.checked_add(size as u64) {
        Some(e) => e,
        None => {
            return Err(WardError::RegionOverflow);
        },
    };
    if end_addr > USER_SPACE_LIMIT {
        return Err(WardError::RegionOverflow);
    }
    Ok(())
}

/// Check if an address is in user space (non-null, below kernel space).
pub fn is_mortal_pointer(addr: u64) -> (r: bool)
    ensures
        r == (addr != 0 && addr < KERNEL_SPACE_START),
{
    addr != 0 && addr < KERNEL_SPACE_START
}

/// A validated pointer into user space.
pub struct MortalPointer<T> {
    addr: u64,
    _phantom: core::marker::PhantomData<T>,
}

impl<T> MortalPointer<T> {
    pub closed spec fn spec_addr(self) -> u64 {
        self.addr
    }

    /// Create a MortalPointer after validating that a `T` at `addr` lies in user space.
    pub fn new(addr: u64) -> (r: Result<Self, WardError>)
        ensures
            match r {
                Ok(p) => mortal_check(addr, vstd::layout::size_of::<T>() as usize) is Ok && p.spec_addr() == addr,
                Err(e) => mortal_check(addr, vstd::layout::size_of::<T>() as usize) == Err::<(), WardError>(e),
            },
    {
        let size = core::mem::size_of::<T>();
        match validate_mortal_pointer(addr, size) {
            Ok(()) => Ok(MortalPointer { addr, _phantom: core::marker::PhantomData }),
            Err(e) => Err(e),
        }
    }

    /// The raw address.
    pub fn addr(&self) -> (r: u64)
        ensures
            r == self.spec_addr(),
    {
        self.addr
    }
}

} // verus!
