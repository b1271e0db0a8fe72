//! Kernel section extents, from the linker's boundary symbols (passed in).
use vstd::prelude::*;

verus! {

/// Size in bytes of the kernel image `[start, end)`.
pub fn kernel_size(kernel_start: usize, kernel_end: usize) -> (r: usize)
    requires
        kernel_start <= kernel_end,
    ensures
        r == kernel_end - kernel_start,
{
    kernel_end - kernel_start
}

/// Size in bytes of the `.bss` section `[start, end)`.
pub fn bss_size(bss_start: usize, bss_end: usize) -> (r: usize)
    requires
        bss_start <= bss_end,
    ensures
        r == bss_end - bss_start,
{
    bss_end - bss_start
}

} // verus!
