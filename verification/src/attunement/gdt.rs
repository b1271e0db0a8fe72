//! # Global Descriptor Table
//!
//! Segment descriptors for Ring 0 (kernel), Ring 1 (services) and Ring 3 (user),
//! and the Task State Segment that holds the stacks used on privilege transitions.
use vstd::prelude::*;

verus! {

/// Size in bytes of the Task State Segment in its hardware layout.
pub const TSS_SIZE: u64 = 104;

/// GDT Entry - a segment descriptor.
#[derive(Debug, Clone, Copy, PartialEq, Eq, Structural)]
pub struct GdtEntry {
    pub limit_low: u16,
    pub base_low: u16,
    pub base_middle: u8,
    pub access: u8,
    pub granularity: u8,
    pub base_high: u8,
}

/// A flat segment (base 0, limit 0xFFFFF) with the given access and granularity bytes.
pub open spec fn flat_segment(access: u8, granularity: u8) -> GdtEntry {
    GdtEntry { limit_low: 0xFFFF, base_low: 0, base_middle: 0, access, granularity, base_high: 0 }
}

/// The all-zero descriptor.
pub open spec fn null_entry() -> GdtEntry {
    GdtEntry { limit_low: 0, base_low: 0, base_middle: 0, access: 0, granularity: 0, base_high: 0 }
}

/// The two descriptors of a 64-bit TSS at address `ptr`.
pub open spec fn tss_entries(ptr: u64) -> (GdtEntry, GdtEntry) {
    let limit = (TSS_SIZE - 1) as u64;
    (
        GdtEntry {
            limit_low: (limit & 0xFFFF) as u16,
            base_low: (ptr & 0xFFFF) as u16,
            base_middle: ((ptr >> 16u64) & 0xFF) as u8,
            access: 0b10001001,
            granularity: ((limit >> 16u64) & 0x0F) as u8,
            base_high: ((ptr >> 24u64) & 0xFF) as u8,
        },
        GdtEntry {
            limit_low: ((ptr >> 32u64) & 0xFFFF) as u16,
            base_low: ((ptr >> 48u64) & 0xFFFF) as u16,
            base_middle: 0,
            access: 0,
            granularity: 0,
            base_high: 0,
        },
    )
}

impl GdtEntry {
    /// Create a null descriptor.
    pub fn null() -> (r: Self)
        ensures
            r == null_entry(),
    {
        GdtEntry { limit_low: 0, base_low: 0, base_middle: 0, access: 0, granularity: 0, base_high: 0 }
    }

    /// Kernel code segment (Ring 0, executable, readable, 64-bit).
    pub fn kernel_code() -> (r: Self)
        ensures
            r == flat_segment(0b10011010, 0b10101111),
    {
        GdtEntry {
            limit_low: 0xFFFF,
            base_low: 0,
            base_middle: 0,
            access: 0b10011010,
            granularity: 0b10101111,
            base_high: 0,
        }
    }

    /// Kernel data segment (Ring 0, writable).
    pub fn kernel_data() -> (r: Self)
        ensures
            r == flat_segment(0b10010010, 0b11001111),
    {
        GdtEntry {
            limit_low: 0xFFFF,
            base_low: 0,
            base_middle: 0,
            access: 0b10010010,
            granularity: 0b11001111,
            base_high: 0,
        }
    }

    /// User code segment (Ring 3, executable, readable, 64-bit).
    pub fn user_code() -> (r: Self)
        ensures
            r == flat_segment(0b11111010, 0b10101111),
    {
        GdtEntry {
            limit_low: 0xFFFF,
            base_low: 0,
            base_middle: 0,
            access: 0b11111010,
            granularity: 0b10101111,
            base_high: 0,
        }
    }

    /// User data segment (Ring 3, writable).
    pub fn user_data() -> (r: Self)
        ensures
            r == flat_segment(0b11110010, 0b10001111),
    {
        GdtEntry {
            limit_low: 0xFFFF,
            base_low: 0,
            base_middle: 0,
            access: 0b11110010,
            granularity: 0b10001111,
            base_high: 0,
        }
    }

    /// Service code segment (Ring 1, executable, readable, 64-bit).
    pub fn service_code() -> (r: Self)
        ensures
            r == flat_segment(0b10111010, 0b10101111),
    {
        GdtEntry {
            limit_low: 0xFFFF,
            base_low: 0,
            base_middle: 0,
            access: 0b10111010,
            granularity: 0b10101111,
            base_high: 0,
        }
    }

    /// Service data segment (Ring 1, writable).
    pub fn service_data() -> (r: Self)
        ensures
            r == flat_segment(0b10110010, 0b10001111),
    {
        GdtEntry {
            limit_low: 0xFFFF,
            base_low: 0,
            base_middle: 0,
            access: 0b10110010,
            granularity: 0b10001111,
            base_high: 0,
        }
    }

    /// The descriptor as the eight bytes the CPU reads, least significant first:
    /// limit low (2 bytes), base low (2), base middle, access, granularity, base high.
    pub open spec fn descriptor_value(self) -> int {
        self.limit_low + self.base_low * 0x1_0000 + self.base_middle * 0x1_0000_0000 + self.access
            * 0x100_0000_0000 + self.granularity * 0x1_0000_0000_0000 + self.base_high * 0x100_0000_0000_0000
    }

    /// The descriptor packed into the 64-bit word the CPU reads from the table.
    pub fn to_bits(&self) -> (r: u64)
        ensures
            r == self.descriptor_value(),
    {
        (self.limit_low as u64) + (self.base_low as u64) * 0x1_0000 + (self.base_middle as u64) * 0x1_0000_0000
            + (self.access as u64) * 0x100_0000_0000 + (self.granularity as u64) * 0x1_0000_0000_0000
            + (self.base_high as u64) * 0x100_0000_0000_0000
    }

    /// The two descriptors of a TSS located at address `tss_addr`.
    pub fn tss(tss_addr: u64) -> (r: [GdtEntry; 2])
        ensures
            r@[0] == tss_entries(tss_addr).0,
            r@[1] == tss_entries(tss_addr).1,
    {
        let ptr = tss_addr;
        let limit: u64 = TSS_SIZE - 1;
        let low = GdtEntry {
            limit_low: (limit & 0xFFFF) as u16,
            base_low: (ptr & 0xFFFF) as u16,
            base_middle: ((ptr >> 16u64) & 0xFF) as u8,
            access: 0b10001001,
            granularity: ((limit >> 16u64) & 0x0F) as u8,
            base_high: ((ptr >> 24u64) & 0xFF) as u8,
        };
        let high = GdtEntry {
            limit_low: ((ptr >> 32u64) & 0xFFFF) as u16,
            base_low: ((ptr >> 48u64) & 0xFFFF) as u16,
            base_middle: 0,
            access: 0,
            granularity: 0,
            base_high: 0,
        };
        [low, high]
    }
}

/// Task State Segment: stack pointers for privilege transitions.
#[derive(Debug, Clone, Copy)]
pub struct TaskStateSegment {
    pub reserved_1: u32,
    /// rsp[0] = Ring 0 (kernel) stack, rsp[1] = Ring 1 (service) stack, rsp[2] unused.
    pub rsp: [u64; 3],
    pub reserved_2: u64,
    /// Interrupt stack table (IST 1-7).
    pub ist: [u64; 7],
    pub reserved_3: u64,
    pub reserved_4: u16,
    /// I/O map base address.
    pub iomap_base: u16,
}

impl TaskStateSegment {
    /// Create a new TSS with zeroed stacks and the I/O map base just past the TSS.
    pub fn new() -> (r: Self)
        ensures
            r.rsp@ == seq![0u64, 0u64, 0u64],
            forall|i: int| 0 <= i < 7 ==> r.ist@[i] == 0,
            r.iomap_base == TSS_SIZE,
            r.reserved_1 == 0 && r.reserved_2 == 0 && r.reserved_3 == 0 && r.reserved_4 == 0,
    {
        let r = TaskStateSegment {
            reserved_1: 0,
            rsp: [0, 0, 0],
            reserved_2: 0,
            ist: [0, 0, 0, 0, 0, 0, 0],
            reserved_3: 0,
            reserved_4: 0,
            iomap_base: 104,
        };
        assert(r.rsp@ =~= seq![0u64, 0u64, 0u64]);
        r
    }

    /// Set the kernel stack pointer (used when switching from Ring 3/1 to Ring 0).
    pub fn set_kernel_stack(&mut self, stack_ptr: u64)
        ensures
            final(self).rsp@ == old(self).rsp@.update(0, stack_ptr),
            final(self).ist == old(self).ist,
            final(self).iomap_base == old(self).iomap_base,
    {
        self.rsp[0] = stack_ptr;
    }

    /// Set the service stack pointer (used when switching from Ring 3 to Ring 1).
    pub fn set_service_stack(&mut self, stack_ptr: u64)
        ensures
            final(self).rsp@ == old(self).rsp@.update(1, stack_ptr),
            final(self).ist == old(self).ist,
            final(self).iomap_base == old(self).iomap_base,
    {
        self.rsp[1] = stack_ptr;
    }

    /// Set an interrupt stack (IST entry); indices of 7 and above are ignored.
    pub fn set_interrupt_stack(&mut self, index: usize, stack_ptr: u64)
        ensures
            index < 7 ==> final(self).ist@ == old(self).ist@.update(index as int, stack_ptr),
            index >= 7 ==> final(self).ist == old(self).ist,
            final(self).rsp == old(self).rsp,
            final(self).iomap_base == old(self).iomap_base,
    {
        if index < 7 {
            self.ist[index] = stack_ptr;
        }
    }
}

/// The Global Descriptor Table.
pub struct GlobalDescriptorTable {
    entries: [GdtEntry; 10],
    len: usize,
}

impl GlobalDescriptorTable {
    pub closed spec fn spec_entries(self) -> Seq<GdtEntry> {
        self.entries@
    }

    pub closed spec fn spec_len(self) -> nat {
        self.len as nat
    }

    /// Create a new GDT holding only the null descriptor.
    pub fn new() -> (r: Self)
        ensures
            r.spec_len() == 1,
            r.spec_entries().len() == 10,
            forall|i: int| 0 <= i < 10 ==> r.spec_entries()[i] == null_entry(),
    {
        let n = GdtEntry::null();
        GlobalDescriptorTable { entries: [n, n, n, n, n, n, n, n, n, n], len: 1 }
    }

    /// Fill the GDT: null, kernel code (0x08), kernel data (0x10), user data (0x18),
    /// user code (0x20), service code (0x28), service data (0x30), and the two TSS
    /// descriptors (0x38) for a TSS at `tss_addr`.
    pub fn initialize(&mut self, tss_addr: u64)
        requires
            old(self).spec_entries().len() == 10,
        ensures
            final(self).spec_len() == 9,
            final(self).spec_entries().len() == 10,
            final(self).spec_entries()[0] == old(self).spec_entries()[0],
            final(self).spec_entries()[1] == flat_segment(0b10011010, 0b10101111),
            final(self).spec_entries()[2] == flat_segment(0b10010010, 0b11001111),
            final(self).spec_entries()[3] == flat_segment(0b11110010, 0b10001111),
            final(self).spec_entries()[4] == flat_segment(0b11111010, 0b10101111),
            final(self).spec_entries()[5] == flat_segment(0b10111010, 0b10101111),
            final(self).spec_entries()[6] == flat_segment(0b10110010, 0b10001111),
            final(self).spec_entries()[7] == tss_entries(tss_addr).0,
            final(self).spec_entries()[8] == tss_entries(tss_addr).1,
            final(self).spec_entries()[9] == old(self).spec_entries()[9],
    {
        self.len = 1;
        self.entries[self.len] = GdtEntry::kernel_code();
        self.len = self.len + 1;
        self.entries[self.len] = GdtEntry::kernel_data();
        self.len = self.len + 1;
        self.entries[self.len] = GdtEntry::user_data();
        self.len = self.len + 1;
        self.entries[self.len] = GdtEntry::user_code();
        self.len = self.len + 1;
        self.entries[self.len] = GdtEntry::service_code();
        self.len = self.len + 1;
        self.entries[self.len] = GdtEntry::service_data();
        self.len = self.len + 1;
        let tss_entries = GdtEntry::tss(tss_addr);
        self.entries[self.len] = tss_entries[0];
        self.len = self.len + 1;
        self.entries[self.len] = tss_entries[1];
        self.len = self.len + 1;
    }

    /// Number of descriptors in use.
    pub fn len(&self) -> (r: usize)
        ensures
            r == self.spec_len(),
    {
        self.len
    }

    /// The descriptor at `index`.
    pub fn entry(&self, index: usize) -> (r: GdtEntry)
        requires
            index < self.spec_entries().len(),
        ensures
            r == self.spec_entries()[index as int],
    {
        self.entries[index]
    }
}

} // verus!
