//! The Rune of Permanence: the `.rune` section of critical kernel data that is
//! made read-only once boot is done.
//!
//! The section's bounds come from the linker; they are passed in here.
use vstd::prelude::*;

verus! {

/// Size of a page.
pub const PAGE_SIZE: u64 = 0x1000;

/// The value stored in the section's test word.
pub const RUNE_TEST_VALUE: u64 = 0xDEAD_BEEF;

/// Size in bytes of the section `[start, end)`.
pub fn get_rune_size(start: u64, end: u64) -> (r: u64)
    requires
        start <= end,
    ensures
        r == end - start,
{
    end - start
}

/// Number of 4KB pages the section `[start, end)` occupies (its size rounded up).
pub fn get_rune_page_count(start: u64, end: u64) -> (r: u64)
    requires
        start <= end,
        end - start + 0xFFF <= u64::MAX,
    ensures
        r == (end - start + 0xFFF) / 0x1000,
        r * 0x1000 >= end - start,
        r * 0x1000 < end - start + 0x1000,
{
    let size = get_rune_size(start, end);
    (size + 0xFFF) / PAGE_SIZE
}

/// Whether the section `[start, end)` is usable: non-empty, page-aligned, holding
/// the test word at `test_addr`, which reads `test_value`.
pub fn verify_rune_section(start: u64, end: u64, test_addr: u64, test_value: u64) -> (r: bool)
    ensures
        r == (start < end && start % 0x1000 == 0 && start <= test_addr < end && test_value == RUNE_TEST_VALUE),
{
    if start >= end {
        return false;
    }
    if start % PAGE_SIZE != 0 {
        return false;
    }
    if test_addr < start || test_addr >= end {
        return false;
    }
    if test_value != RUNE_TEST_VALUE {
        return false;
    }
    true
}

/// Why the Rune section cannot be sealed.
#[derive(Debug, Clone, Copy, PartialEq, Eq, Structural)]
pub enum SealRefusal {
    /// It was sealed before.
    AlreadySealed,
    /// The section `[start, end)` is empty or reversed.
    EmptySection,
    /// The section does not start on a page boundary.
    UnalignedStart,
}

/// Whether the section `[start, end)` can be sealed now, checked in this order:
/// not sealed before, non-empty, page-aligned start.
pub fn check_rune_seal(already_sealed: bool, start: u64, end: u64) -> (r: Result<(), SealRefusal>)
    ensures
        r == (if already_sealed {
            Err(SealRefusal::AlreadySealed)
        } else if start >= end {
            Err(SealRefusal::EmptySection)
        } else if start % 0x1000 != 0 {
            Err(SealRefusal::UnalignedStart)
        } else {
            Ok(())
        }),
{
    if already_sealed {
        return Err(SealRefusal::AlreadySealed);
    }
    if start >= end {
        return Err(SealRefusal::EmptySection);
    }
    if start % PAGE_SIZE != 0 {
        return Err(SealRefusal::UnalignedStart);
    }
    Ok(())
}

} // verus!
