//! # x86-64 page table entries
//!
//! A 48-bit virtual address selects one entry in each of four levels of
//! 512-entry tables (PML4, PDPT, PD, PT), nine bits per level above a 12-bit
//! page offset. A 64-bit entry holds flags in bits 0-11 and a page-aligned
//! physical address in bits 12-51:
//!
//! - bit 0: Present, bit 1: Read/Write, bit 2: User/Supervisor,
//! - bit 3: Write-Through, bit 4: Cache-Disable, bit 5: Accessed,
//! - bit 6: Dirty, bit 7: Page Size (huge page), bit 8: Global.
use vstd::prelude::*;

verus! {

/// Page table entry flags.
#[derive(Debug, Clone, Copy, PartialEq, Eq, Structural)]
pub enum PageFlag {
    Present,
    ReadWrite,
    UserSupervisor,
    WriteThrough,
    CacheDisable,
    Accessed,
    Dirty,
    /// 2MB page in a PD, 1GB page in a PDPT.
    HugePage,
    Global,
}

/// The bit position of a flag.
pub open spec fn flag_bit(f: PageFlag) -> u64 {
    match f {
        PageFlag::Present => 0,
        PageFlag::ReadWrite => 1,
        PageFlag::UserSupervisor => 2,
        PageFlag::WriteThrough => 3,
        PageFlag::CacheDisable => 4,
        PageFlag::Accessed => 5,
        PageFlag::Dirty => 6,
        PageFlag::HugePage => 7,
        PageFlag::Global => 8,
    }
}

impl PageFlag {
    /// The flag's mask within an entry.
    pub fn bits(&self) -> (r: u64)
        ensures
            r == 1u64 << flag_bit(*self),
    {
        match self {
            PageFlag::Present => 1u64 << 0u64,
            PageFlag::ReadWrite => 1u64 << 1u64,
            PageFlag::UserSupervisor => 1u64 << 2u64,
            PageFlag::WriteThrough => 1u64 << 3u64,
            PageFlag::CacheDisable => 1u64 << 4u64,
            PageFlag::Accessed => 1u64 << 5u64,
            PageFlag::Dirty => 1u64 << 6u64,
            PageFlag::HugePage => 1u64 << 7u64,
            PageFlag::Global => 1u64 << 8u64,
        }
    }
}

/// Mask of the physical address bits (12-51) of an entry.
pub const ADDRESS_MASK: u64 = 0x000F_FFFF_FFFF_F000;

/// A 64-bit page table entry.
#[derive(Debug, Clone, Copy, PartialEq, Eq, Structural)]
pub struct PageTableEntry {
    entry: u64,
}

impl PageTableEntry {
    /// The raw 64-bit value.
    pub closed spec fn spec_raw(&self) -> u64 {
        self.entry
    }

    /// An entry holding `value`.
    pub fn from_raw(value: u64) -> (r: Self)
        ensures
            r.spec_raw() == value,
    {
        PageTableEntry { entry: value }
    }

    /// Check if the entry is present.
    pub fn is_present(&self) -> (r: bool)
        ensures
            r == (self.spec_raw() & 1 != 0),
    {
        self.entry & 1 != 0
    }

    /// Check if this is a huge page (2MB or 1GB).
    pub fn is_huge(&self) -> (r: bool)
        ensures
            r == (self.spec_raw() & 0x80 != 0),
    {
        self.entry & 0x80 != 0
    }

    /// Check if the page is writable.
    pub fn is_writable(&self) -> (r: bool)
        ensures
            r == (self.spec_raw() & 2 != 0),
    {
        self.entry & 2 != 0
    }

    /// The physical address this entry points to (page-aligned).
    pub fn address(&self) -> (r: u64)
        ensures
            r == self.spec_raw() & ADDRESS_MASK,
    {
        self.entry & ADDRESS_MASK
    }

    /// Set or clear the read/write flag, leaving every other bit as it was.
    pub fn set_writable(&mut self, writable: bool)
        ensures
            final(self).spec_raw() == (if writable {
                old(self).spec_raw() | 2
            } else {
                old(self).spec_raw() & !2u64
            }),
            (final(self).spec_raw() & 2 != 0) == writable,
            final(self).spec_raw() & !2u64 == old(self).spec_raw() & !2u64,
    {
        let old_entry = self.entry;
        if writable {
            self.entry = self.entry | 2;
            assert((old_entry | 2) & 2 != 0) by (bit_vector);
            assert((old_entry | 2) & !2u64 == old_entry & !2u64) by (bit_vector);
        } else {
            self.entry = self.entry & !2u64;
            assert((old_entry & !2u64) & 2 == 0) by (bit_vector);
            assert((old_entry & !2u64) & !2u64 == old_entry & !2u64) by (bit_vector);
        }
    }

    /// The raw entry value.
    pub fn raw(&self) -> (r: u64)
        ensures
            r == self.spec_raw(),
    {
        self.entry
    }

    /// Set the raw entry value.
    pub fn set_raw(&mut self, value: u64)
        ensures
            final(self).spec_raw() == value,
    {
        self.entry = value;
    }
}

/// A page table: 512 entries.
pub struct PageTable {
    entries: [PageTableEntry; 512],
}

impl PageTable {
    /// The entries, in order.
    pub closed spec fn spec_entries(&self) -> Seq<PageTableEntry> {
        self.entries@
    }

    /// A table whose entries are all zero (not present).
    pub fn new() -> (r: Self)
        ensures
            r.spec_entries().len() == 512,
            forall|i: int| 0 <= i < 512 ==> #[trigger] r.spec_entries()[i].spec_raw() == 0,
    {
        PageTable { entries: [PageTableEntry { entry: 0 }; 512] }
    }

    /// Get an entry by index.
    pub fn entry(&self, index: usize) -> (r: PageTableEntry)
        requires
            index < 512,
        ensures
            r == self.spec_entries()[index as int],
    {
        self.entries[index]
    }

    /// Get a mutable entry by index.
    pub fn entry_mut(&mut self, index: usize) -> (r: &mut PageTableEntry)
        requires
            index < 512,
        ensures
            *r == old(self).spec_entries()[index as int],
            final(self).spec_entries() == old(self).spec_entries().update(index as int, *final(r)),
    {
        &mut self.entries[index]
    }
}

/// The index selected at `level` (4 = PML4 ... 1 = PT): bits `12 + 9 * (level - 1)`
/// and up, nine of them.
pub open spec fn table_index_spec(addr: u64, level: u8) -> u64 {
    (addr >> (12 + 9 * (level - 1)) as u64) & 0x1FF
}

/// Extract the page table index for a level (4 = PML4, 3 = PDPT, 2 = PD, 1 = PT).
pub fn page_table_index(addr: u64, level: u8) -> (r: usize)
    requires
        1 <= level <= 4,
    ensures
        r == table_index_spec(addr, level),
        r < 512,
{
    let v: u64 = if level == 4 {
        (addr >> 39u64) & 0x1FF
    } else if level == 3 {
        (addr >> 30u64) & 0x1FF
    } else if level == 2 {
        (addr >> 21u64) & 0x1FF
    } else {
        (addr >> 12u64) & 0x1FF
    };
    assert(v <= 0x1FF) by (bit_vector)
        requires
            v == (addr >> 39u64) & 0x1FF || v == (addr >> 30u64) & 0x1FF || v == (addr >> 21u64) & 0x1FF || v
                == (addr >> 12u64) & 0x1FF,
    ;
    v as usize
}

/// Base of the higher-half kernel mapping of physical memory.
pub const KERNEL_BASE: u64 = 0xFFFF_FFFF_8000_0000;

/// The physical address behind a kernel virtual address (identity below the
/// higher half).
pub fn virt_to_phys(virt: u64) -> (r: u64)
    ensures
        r == (if virt >= KERNEL_BASE {
            virt - KERNEL_BASE
        } else {
            virt as int
        }),
{
    if virt >= KERNEL_BASE {
        virt - KERNEL_BASE
    } else {
        virt
    }
}

/// The kernel virtual address of a physical address.
pub fn phys_to_virt(phys: u64) -> (r: u64)
    requires
        phys <= u64::MAX - KERNEL_BASE,
    ensures
        r == KERNEL_BASE + phys,
{
    KERNEL_BASE + phys
}

/// Flags of an entry that points to a lower-level table of a user mapping:
/// present, writable, user-accessible.
pub const INTERMEDIATE_TABLE_FLAGS: u64 = 0x7;

/// Lowest address of the kernel half; user mappings stay below it.
pub const USER_MAPPING_LIMIT: u64 = 0x0000_8000_0000_0000;

/// The checks a user mapping request must pass, in the order they are made.
pub open spec fn user_mapping_error(virt: u64, phys: u64) -> Option<Seq<char>> {
    if virt >= USER_MAPPING_LIMIT {
        Some("Virtual address is in kernel space"@)
    } else if virt % 0x1000 != 0 {
        Some("Virtual address not page-aligned"@)
    } else if phys % 0x1000 != 0 {
        Some("Physical address not page-aligned"@)
    } else {
        None
    }
}

/// Check a request to map the user page at `virt` to the frame at `phys`: the
/// page must lie below the kernel half and both addresses must be page-aligned.
pub fn check_user_mapping(virt: u64, phys: u64) -> (r: Result<(), &'static str>)
    ensures
        match user_mapping_error(virt, phys) {
            Some(msg) => r is Err && r->Err_0@ == msg,
            None => r is Ok,
        },
{
    if virt >= USER_MAPPING_LIMIT {
        return Err("Virtual address is in kernel space");
    }
    if virt % 0x1000 != 0 {
        return Err("Virtual address not page-aligned");
    }
    if phys % 0x1000 != 0 {
        return Err("Physical address not page-aligned");
    }
    Ok(())
}

/// What to do with the entry met at an upper level of a walk that maps a page.
#[derive(Debug, Clone, Copy, PartialEq, Eq)]
pub enum MapStep {
    /// Go on to the table at this physical address.
    Descend(u64),
    /// The entry is empty: allocate a table and point the entry at it.
    NewTable,
    /// A huge page already covers the address.
    Refuse(&'static str),
}

/// The step a mapping walk takes at `level` (4 = PML4, 3 = PDPT, 2 = PD) on
/// meeting `entry`: an empty entry gets a new table; a huge page in a PDPT or PD
/// stops the walk; otherwise the walk descends to the table the entry points to.
pub fn upper_level_step(level: u8, entry: PageTableEntry) -> (r: MapStep)
    requires
        2 <= level <= 4,
    ensures
        entry.spec_raw() & 1 == 0 ==> r == MapStep::NewTable,
        entry.spec_raw() & 1 != 0 && level < 4 && entry.spec_raw() & 0x80 != 0 ==> r is Refuse && r->Refuse_0@ == (
        if level == 3 {
            "1GB huge page already mapped at this address"@
        } else {
            "2MB huge page already mapped at this address"@
        }),
        entry.spec_raw() & 1 != 0 && (level == 4 || entry.spec_raw() & 0x80 == 0) ==> r == MapStep::Descend(
            entry.spec_raw() & ADDRESS_MASK,
        ),
{
    if !entry.is_present() {
        return MapStep::NewTable;
    }
    if level < 4 && entry.is_huge() {
        if level == 3 {
            return MapStep::Refuse("1GB huge page already mapped at this address");
        } else {
            return MapStep::Refuse("2MB huge page already mapped at this address");
        }
    }
    MapStep::Descend(entry.address())
}

/// The entry pointing to a newly allocated lower-level table at `table_phys`.
pub fn table_entry(table_phys: u64) -> (r: PageTableEntry)
    ensures
        r.spec_raw() == table_phys | INTERMEDIATE_TABLE_FLAGS,
{
    PageTableEntry::from_raw(table_phys | INTERMEDIATE_TABLE_FLAGS)
}

/// The page-table entry mapping the frame at `phys` with `flags`, to replace
/// `current`; refused when `current` already maps a page.
pub fn leaf_entry(current: PageTableEntry, phys: u64, flags: u64) -> (r: Result<PageTableEntry, &'static str>)
    ensures
        current.spec_raw() & 1 != 0 ==> r is Err && r->Err_0@ == "Page already mapped"@,
        current.spec_raw() & 1 == 0 ==> r is Ok && r->Ok_0.spec_raw() == phys | flags,
{
    if current.is_present() {
        return Err("Page already mapped");
    }
    Ok(PageTableEntry::from_raw(phys | flags))
}

/// Law: an entry written as a page-aligned physical address (below 2^52) joined
/// with flags outside the address bits reads back that address, and is present
/// exactly when the flags say so. This is what lets a walk follow the tables a
/// mapping created (`table_entry`) and find the frame it mapped (`leaf_entry`).
pub proof fn lemma_entry_roundtrip(phys: u64, flags: u64)
    requires
        phys % 0x1000 == 0,
        phys < 0x10_0000_0000_0000,
        flags & ADDRESS_MASK == 0,
    ensures
        (phys | flags) & ADDRESS_MASK == phys,
        ((phys | flags) & 1 != 0) == (flags & 1 != 0),
        (phys | INTERMEDIATE_TABLE_FLAGS) & ADDRESS_MASK == phys,
        (phys | INTERMEDIATE_TABLE_FLAGS) & 1 != 0,
        (phys | INTERMEDIATE_TABLE_FLAGS) & 0x80 == 0,
{
    assert((phys | flags) & 0x000F_FFFF_FFFF_F000u64 == phys && (((phys | flags) & 1 != 0) == (flags & 1 != 0))) by (bit_vector)
        requires
            phys % 0x1000 == 0,
            phys < 0x10_0000_0000_0000,
            flags & 0x000F_FFFF_FFFF_F000u64 == 0,
    ;
    assert((phys | 7u64) & 0x000F_FFFF_FFFF_F000u64 == phys && (phys | 7u64) & 1 != 0 && (phys | 7u64) & 0x80 == 0) by (bit_vector)
        requires
            phys % 0x1000 == 0,
            phys < 0x10_0000_0000_0000,
    ;
}

/// The PML4 slot of the kernel's top 2 GB, shared by every address space.
pub const KERNEL_PML4_SLOT: usize = 511;

/// The PML4 slot of the recursive mapping: the table pointing to itself.
pub const RECURSIVE_PML4_SLOT: usize = 510;

/// The top-level entries a new address space starts with, beside empty user
/// slots: the kernel's top slot when the kernel has it mapped, and the recursive
/// slot pointing, present and writable, to the new table at `new_pml4_phys`.
pub fn new_pml4_entries(kernel_top: PageTableEntry, new_pml4_phys: u64) -> (r: (Option<PageTableEntry>, PageTableEntry))
    ensures
        r.0 == (if kernel_top.spec_raw() & 1 != 0 { Some(kernel_top) } else { None::<PageTableEntry> }),
        r.1.spec_raw() == new_pml4_phys | 3,
{
    let top = if kernel_top.is_present() { Some(kernel_top) } else { None };
    (top, PageTableEntry::from_raw(new_pml4_phys | 3))
}

/// The PDPT slot of the kernel image's gigabyte, under PML4 slot 511.
pub const KERNEL_PDPT_SLOT: usize = 510;

/// First PD slot of the kernel heap (12 MB above the kernel base).
pub const HEAP_PD_FIRST: usize = 6;

/// PD slot just past the kernel heap (20 MB above the kernel base).
pub const HEAP_PD_END: usize = 10;

impl PageTable {
    /// Make every present entry writable, leaving the others as they are.
    pub fn make_present_writable(&mut self)
        ensures
            final(self).spec_entries().len() == old(self).spec_entries().len(),
            forall|i: int|
                0 <= i < old(self).spec_entries().len() ==> (#[trigger] final(self).spec_entries()[i]).spec_raw() == (
                if old(self).spec_entries()[i].spec_raw() & 1 != 0 {
                    old(self).spec_entries()[i].spec_raw() | 2
                } else {
                    old(self).spec_entries()[i].spec_raw()
                }),
    {
        let mut i: usize = 0;
        while i < 512
            invariant
                i <= 512,
                self.entries@.len() == 512,
                old(self).entries@.len() == 512,
                forall|k: int|
                    0 <= k < 512 ==> (#[trigger] self.entries@[k]).spec_raw() == (if k < i
                        && old(self).entries@[k].spec_raw() & 1 != 0 {
                        old(self).entries@[k].spec_raw() | 2
                    } else {
                        old(self).entries@[k].spec_raw()
                    }),
            decreases 512 - i,
        {
            if self.entries[i].is_present() {
                self.entries[i].set_writable(true);
            }
            i = i + 1;
        }
    }
}

/// One upper step of the walk to the 2 MB page holding an address, at `level`
/// (4 = PML4, 3 = PDPT): the table to go on to, or why the walk stops.
pub fn huge_page_walk_step(level: u8, entry: PageTableEntry) -> (r: Result<u64, &'static str>)
    requires
        level == 3 || level == 4,
    ensures
        entry.spec_raw() & 1 == 0 ==> r is Err && r->Err_0@ == (if level == 4 {
            "PML4 entry not present"@
        } else {
            "PDPT entry not present"@
        }),
        entry.spec_raw() & 1 != 0 && level == 3 && entry.spec_raw() & 0x80 != 0 ==> r is Err && r->Err_0@
            == "1GB huge pages not supported"@,
        entry.spec_raw() & 1 != 0 && (level == 4 || entry.spec_raw() & 0x80 == 0) ==> r == Ok::<u64, &'static str>(
            entry.spec_raw() & ADDRESS_MASK,
        ),
{
    if !entry.is_present() {
        if level == 4 {
            return Err("PML4 entry not present");
        } else {
            return Err("PDPT entry not present");
        }
    }
    if level == 3 && entry.is_huge() {
        return Err("1GB huge pages not supported");
    }
    Ok(entry.address())
}

/// Whether the PD entry reached by that walk is a 2 MB page that can be made
/// read-only.
pub fn huge_page_check(entry: PageTableEntry) -> (r: Result<(), &'static str>)
    ensures
        entry.spec_raw() & 1 == 0 ==> r is Err && r->Err_0@ == "PD entry not present"@,
        entry.spec_raw() & 1 != 0 && entry.spec_raw() & 0x80 == 0 ==> r is Err && r->Err_0@ == "Not a huge page"@,
        entry.spec_raw() & 1 != 0 && entry.spec_raw() & 0x80 != 0 ==> r is Ok,
{
    if !entry.is_present() {
        return Err("PD entry not present");
    }
    if !entry.is_huge() {
        return Err("Not a huge page");
    }
    Ok(())
}

/// Where making a range read-only goes on after the page at `addr`: the next
/// 4 KB page, or, after a 2 MB page, the next 2 MB boundary.
pub fn next_readonly_address(addr: u64, huge: bool) -> (r: u64)
    requires
        addr <= u64::MAX - 0x20_0000,
    ensures
        !huge ==> r == addr + 0x1000,
        huge ==> r == addr - addr % 0x20_0000 + 0x20_0000,
        r > addr,
{
    if huge {
        let base = addr & !0x1F_FFFFu64;
        assert(addr & !0x1F_FFFFu64 == addr - addr % 0x20_0000) by (bit_vector);
        base + 0x20_0000
    } else {
        addr + 0x1000
    }
}

} // verus!
