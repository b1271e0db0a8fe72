//! User address spaces: the memory regions of a user process, and the layout of
//! an ELF image's loadable segments as page-aligned regions.
//!
//! Addresses are plain 64-bit numbers; page-table flags are the x86-64 entry bits
//! (Present = bit 0, Writable = bit 1, User = bit 2, No-Execute = bit 63).
use vstd::prelude::*;
use crate::loom_of_fate::elf_loader::{
    header_error, le16, le64, load_elf, load_elf_spec, lemma_loaded_segments_in_user_space, ElfError, LoadedSegment,
    ET_DYN, PF_W, PF_X, PIE_BASE,
};

verus! {

/// Lowest user-space address.
pub const USER_SPACE_START: u64 = 0;
/// Highest user-space address.
pub const USER_SPACE_END: u64 = 0x0000_7FFF_FFFF_FFFF;
/// Top of the first user stack.
pub const USER_STACK_TOP: u64 = 0x0000_7FFF_FFFF_0000;
/// Size of a user stack: 64 KB.
pub const USER_STACK_SIZE: u64 = 0x0001_0000;
/// Gap left below each stack.
pub const STACK_GUARD_GAP: u64 = 0x1_0000;
/// Initial program break.
pub const INITIAL_HEAP_BREAK: u64 = 0x0000_0000_0040_0000;

/// Page-table entry bit: present.
pub const FLAG_PRESENT: u64 = 0x1;
/// Page-table entry bit: writable.
pub const FLAG_WRITABLE: u64 = 0x2;
/// Page-table entry bit: accessible from user mode.
pub const FLAG_USER: u64 = 0x4;
/// Page-table entry bit: no execute.
pub const FLAG_NO_EXECUTE: u64 = 0x8000_0000_0000_0000;

/// Kind of a memory region.
#[derive(Debug, Clone, Copy, PartialEq, Eq, Structural)]
pub enum RegionType {
    /// Executable code (read + execute).
    Code,
    /// Initialized data (read + write).
    Data,
    /// Read-only data.
    ReadOnlyData,
    /// Heap.
    Heap,
    /// Stack.
    Stack,
}

/// The page-table flags a region kind is mapped with: code is executable and
/// read-only, read-only data is neither writable nor executable, the rest is
/// writable and not executable; all of it is present and user-accessible.
pub open spec fn region_flags(t: RegionType) -> u64 {
    match t {
        RegionType::Code => FLAG_PRESENT | FLAG_USER,
        RegionType::ReadOnlyData => FLAG_PRESENT | FLAG_USER | FLAG_NO_EXECUTE,
        _ => FLAG_PRESENT | FLAG_WRITABLE | FLAG_USER | FLAG_NO_EXECUTE,
    }
}

/// Law: a region's kind decides its access. Every region is present and
/// user-accessible; data, heap and stack regions are writable and not executable;
/// read-only data is neither writable nor executable; code is executable and not
/// writable.
pub proof fn lemma_region_access(t: RegionType)
    ensures
        region_flags(t) & FLAG_PRESENT == FLAG_PRESENT,
        region_flags(t) & FLAG_USER == FLAG_USER,
        (region_flags(t) & FLAG_WRITABLE == FLAG_WRITABLE) <==> (t == RegionType::Data || t == RegionType::Heap
            || t == RegionType::Stack),
        (region_flags(t) & FLAG_WRITABLE == 0) <==> (t == RegionType::Code || t == RegionType::ReadOnlyData),
        (region_flags(t) & FLAG_NO_EXECUTE == FLAG_NO_EXECUTE) <==> (t != RegionType::Code),
        (region_flags(t) & FLAG_NO_EXECUTE == 0) <==> (t == RegionType::Code),
{
    let code: u64 = 0x1u64 | 0x4u64;
    let ro: u64 = 0x1u64 | 0x4u64 | 0x8000_0000_0000_0000u64;
    let rw: u64 = 0x1u64 | 0x2u64 | 0x4u64 | 0x8000_0000_0000_0000u64;
    assert(code & 0x1 == 0x1 && code & 0x4 == 0x4 && code & 0x2 == 0 && code & 0x8000_0000_0000_0000 == 0)
        by (bit_vector)
        requires
            code == 0x1u64 | 0x4u64,
    ;
    assert(ro & 0x1 == 0x1 && ro & 0x4 == 0x4 && ro & 0x2 == 0 && ro & 0x8000_0000_0000_0000
        == 0x8000_0000_0000_0000) by (bit_vector)
        requires
            ro == 0x1u64 | 0x4u64 | 0x8000_0000_0000_0000u64,
    ;
    assert(rw & 0x1 == 0x1 && rw & 0x4 == 0x4 && rw & 0x2 == 0x2 && rw & 0x8000_0000_0000_0000
        == 0x8000_0000_0000_0000) by (bit_vector)
        requires
            rw == 0x1u64 | 0x2u64 | 0x4u64 | 0x8000_0000_0000_0000u64,
    ;
}

/// A contiguous region of a user address space.
#[derive(Debug, Clone, Copy, PartialEq, Eq, Structural)]
pub struct MemoryRegion {
    /// Start address (page-aligned).
    pub start: u64,
    /// Size in bytes.
    pub size: u64,
    /// What the region holds.
    pub region_type: RegionType,
    /// Page-table flags the region is mapped with.
    pub flags: u64,
}

impl MemoryRegion {
    /// A region of `size` bytes at `start`, with the flags of its kind.
    pub fn new(start: u64, size: u64, region_type: RegionType) -> (r: Self)
        ensures
            r == (MemoryRegion { start, size, region_type, flags: region_flags(region_type) }),
            r.flags & FLAG_PRESENT == FLAG_PRESENT && r.flags & FLAG_USER == FLAG_USER,
            (r.flags & FLAG_WRITABLE == FLAG_WRITABLE) <==> (region_type == RegionType::Data || region_type
                == RegionType::Heap || region_type == RegionType::Stack),
            (r.flags & FLAG_NO_EXECUTE == FLAG_NO_EXECUTE) <==> (region_type != RegionType::Code),
    {
        proof {
            lemma_region_access(region_type);
        }
        let flags = match region_type {
            RegionType::Code => FLAG_PRESENT | FLAG_USER,
            RegionType::ReadOnlyData => FLAG_PRESENT | FLAG_USER | FLAG_NO_EXECUTE,
            _ => FLAG_PRESENT | FLAG_WRITABLE | FLAG_USER | FLAG_NO_EXECUTE,
        };
        MemoryRegion { start, size, region_type, flags }
    }

    /// End address (exclusive).
    pub fn end(&self) -> (r: u64)
        requires
            self.start + self.size <= u64::MAX,
        ensures
            r == self.start + self.size,
    {
        self.start + self.size
    }

    /// Whether `addr` lies in the region.
    pub fn contains(&self, addr: u64) -> (r: bool)
        requires
            self.start + self.size <= u64::MAX,
        ensures
            r == (self.start <= addr < self.start + self.size),
    {
        addr >= self.start && addr < self.end()
    }

    /// Whether two regions share an address.
    pub fn overlaps(&self, other: &MemoryRegion) -> (r: bool)
        requires
            self.start + self.size <= u64::MAX,
            other.start + other.size <= u64::MAX,
        ensures
            r == (self.start < other.start + other.size && other.start < self.start + self.size),
    {
        self.start < other.end() && other.start < self.end()
    }
}

/// The region fits below the top of the address space.
pub open spec fn region_fits(r: MemoryRegion) -> bool {
    r.start + r.size <= u64::MAX
}

/// Two regions share an address.
pub open spec fn regions_overlap(a: MemoryRegion, b: MemoryRegion) -> bool {
    a.start < b.start + b.size && b.start < a.start + a.size
}

/// Index of the first region containing `addr`, searching from `i`.
pub open spec fn region_index_from(rs: Seq<MemoryRegion>, addr: u64, i: int) -> Option<int>
    decreases rs.len() - i,
{
    if i < 0 || i >= rs.len() {
        None
    } else if rs[i].start <= addr < rs[i].start + rs[i].size {
        Some(i)
    } else {
        region_index_from(rs, addr, i + 1)
    }
}

/// The address space of a user process: its top-level page table, its regions
/// (pairwise disjoint), the program break and where the next stack goes.
pub struct UserAddressSpace {
    pml4_phys: u64,
    regions: Vec<MemoryRegion>,
    heap_break: u64,
    next_stack: u64,
}

impl UserAddressSpace {
    /// The regions, in the order they were added.
    pub closed spec fn spec_regions(&self) -> Seq<MemoryRegion> {
        self.regions@
    }

    /// Top of the next stack to allocate.
    pub closed spec fn spec_next_stack(&self) -> u64 {
        self.next_stack
    }

    /// Physical address of the top-level page table.
    pub closed spec fn spec_pml4(&self) -> u64 {
        self.pml4_phys
    }

    /// The program break.
    pub closed spec fn spec_heap_break(&self) -> u64 {
        self.heap_break
    }

    /// Physical address of the top-level page table.
    pub fn pml4_phys(&self) -> (r: u64)
        ensures
            r == self.spec_pml4(),
    {
        self.pml4_phys
    }

    /// The program break.
    pub fn heap_break(&self) -> (r: u64)
        ensures
            r == self.spec_heap_break(),
    {
        self.heap_break
    }

    /// Invariant: every region fits and no two regions overlap.
    pub open spec fn wf(&self) -> bool {
        &&& forall|i: int| 0 <= i < self.spec_regions().len() ==> region_fits(#[trigger] self.spec_regions()[i])
        &&& forall|i: int, j: int|
            0 <= i < self.spec_regions().len() && 0 <= j < self.spec_regions().len() && i != j
                ==> !regions_overlap(self.spec_regions()[i], self.spec_regions()[j])
    }

    /// An empty address space over the page table at `pml4_phys`.
    pub fn new(pml4_phys: u64) -> (r: Self)
        ensures
            r.wf(),
            r.spec_pml4() == pml4_phys,
            r.spec_regions().len() == 0,
            r.spec_heap_break() == INITIAL_HEAP_BREAK,
            r.spec_next_stack() == USER_STACK_TOP,
    {
        UserAddressSpace {
            pml4_phys,
            regions: Vec::new(),
            heap_break: INITIAL_HEAP_BREAK,
            next_stack: USER_STACK_TOP,
        }
    }

    /// The regions, in the order they were added.
    pub fn regions(&self) -> (r: &[MemoryRegion])
        ensures
            r@ == self.spec_regions(),
    {
        self.regions.as_slice()
    }

    /// Add a region; fails when it overlaps one already present.
    pub fn add_region(&mut self, region: MemoryRegion) -> (r: Result<(), &'static str>)
        requires
            old(self).wf(),
            region_fits(region),
        ensures
            final(self).wf(),
            final(self).spec_pml4() == old(self).spec_pml4(),
            final(self).spec_heap_break() == old(self).spec_heap_break(),
            final(self).spec_next_stack() == old(self).spec_next_stack(),
            (exists|i: int|
                0 <= i < old(self).spec_regions().len() && regions_overlap(
                    #[trigger] old(self).spec_regions()[i],
                    region,
                )) ==> r is Err && final(self).spec_regions() == old(self).spec_regions(),
            !(exists|i: int|
                0 <= i < old(self).spec_regions().len() && regions_overlap(
                    #[trigger] old(self).spec_regions()[i],
                    region,
                )) ==> r is Ok && final(self).spec_regions() == old(self).spec_regions().push(region),
    {
        let mut i: usize = 0;
        while i < self.regions.len()
            invariant
                self.wf(),
                region_fits(region),
                i <= self.regions@.len(),
                forall|k: int| 0 <= k < i ==> !regions_overlap(#[trigger] self.regions@[k], region),
            decreases self.regions@.len() - i,
        {
            assert(region_fits(self.spec_regions()[i as int]));
            if self.regions[i].overlaps(&region) {
                return Err("Region overlaps with existing region");
            }
            i = i + 1;
        }
        let ghost before = self.regions@;
        self.regions.push(region);
        proof {
            assert forall|a: int, b: int|
                0 <= a < self.regions@.len() && 0 <= b < self.regions@.len() && a != b implies !regions_overlap(
                self.regions@[a],
                self.regions@[b],
            ) by {
                if a < before.len() && b < before.len() {
                    assert(self.regions@[a] == self.spec_regions()[a]);
                } else if a == before.len() {
                    assert(!regions_overlap(before[b], region));
                } else {
                    assert(!regions_overlap(before[a], region));
                }
            }
            assert forall|a: int| 0 <= a < self.regions@.len() implies region_fits(
                #[trigger] self.regions@[a],
            ) by {
                if a < before.len() {
                    assert(region_fits(old(self).spec_regions()[a]));
                }
            }
        }
        Ok(())
    }

    /// The region containing `addr`, if any (the first one added, should several).
    pub fn find_region(&self, addr: u64) -> (r: Option<&MemoryRegion>)
        requires
            self.wf(),
        ensures
            match region_index_from(self.spec_regions(), addr, 0) {
                Some(i) => r == Some(&self.spec_regions()[i]),
                None => r is None,
            },
    {
        let mut i: usize = 0;
        while i < self.regions.len()
            invariant
                self.wf(),
                i <= self.regions@.len(),
                region_index_from(self.regions@, addr, 0) == region_index_from(self.regions@, addr, i as int),
            decreases self.regions@.len() - i,
        {
            assert(region_fits(self.spec_regions()[i as int]));
            if self.regions[i].contains(addr) {
                return Some(&self.regions[i]);
            }
            i = i + 1;
        }
        None
    }

    /// Reserve the next user stack of `size` bytes (rounded up to whole pages): a
    /// Stack region ending at the current stack top is added, and the next stack
    /// will go below it, past a 64 KB guard gap. Returns the new region; its end is
    /// the stack's top. The region still has to be backed by frames and mapped.
    pub fn allocate_stack(&mut self, size: u64) -> (r: Result<MemoryRegion, &'static str>)
        requires
            old(self).wf(),
            size <= u64::MAX - 0xFFF,
            (size + 0xFFF) / 0x1000 * 0x1000 + STACK_GUARD_GAP <= old(self).spec_next_stack(),
        ensures
            final(self).wf(),
            final(self).spec_pml4() == old(self).spec_pml4(),
            final(self).spec_heap_break() == old(self).spec_heap_break(),
            ({
                let aligned = (size + 0xFFF) / 0x1000 * 0x1000;
                let bottom = old(self).spec_next_stack() - aligned;
                let region = MemoryRegion {
                    start: bottom as u64,
                    size: aligned as u64,
                    region_type: RegionType::Stack,
                    flags: region_flags(RegionType::Stack),
                };
                let clash = exists|i: int|
                    0 <= i < old(self).spec_regions().len() && regions_overlap(
                        #[trigger] old(self).spec_regions()[i],
                        region,
                    );
                &&& clash ==> r is Err && final(self).spec_regions() == old(self).spec_regions()
                    && final(self).spec_next_stack() == old(self).spec_next_stack()
                &&& r matches Ok(reg) ==> reg.flags & FLAG_WRITABLE == FLAG_WRITABLE && reg.flags
                    & FLAG_NO_EXECUTE == FLAG_NO_EXECUTE && reg.flags & FLAG_USER == FLAG_USER
                &&& !clash ==> r == Ok::<MemoryRegion, &'static str>(region) && final(self).spec_regions()
                    == old(self).spec_regions().push(region) && final(self).spec_next_stack() == bottom
                    - STACK_GUARD_GAP
            }),
    {
        let size_pages = (size + 0xFFF) / 0x1000;
        assert(size_pages * 0x1000 <= size + 0xFFF) by (nonlinear_arith)
            requires
                size_pages == (size + 0xFFF) / 0x1000,
        ;
        let aligned_size = size_pages * 0x1000;
        let stack_bottom = self.next_stack - aligned_size;
        let stack_region = MemoryRegion::new(stack_bottom, aligned_size, RegionType::Stack);
        match self.add_region(stack_region) {
            Err(e) => return Err(e),
            Ok(()) => {},
        }
        self.next_stack = stack_bottom - STACK_GUARD_GAP;
        Ok(stack_region)
    }
}

/// One page to map: in the page table rooted at `pml4_phys`, the user page at
/// `virt` to the frame at `phys`, with the entry flags `flags`.
#[derive(Debug, Clone, Copy, PartialEq, Eq, Structural)]
pub struct PageMapping {
    pub pml4_phys: u64,
    pub virt: u64,
    pub phys: u64,
    pub flags: u64,
}

impl UserAddressSpace {
    /// The page mappings that back `region` with `frames`, page `i` of the region
    /// going to frame `i`, with the region's flags. Fails when there are fewer
    /// frames than pages.
    pub fn map_region(&self, region: &MemoryRegion, frames: &[u64]) -> (r: Result<Vec<PageMapping>, &'static str>)
        requires
            region_fits(*region),
            region.size <= u64::MAX - 0xFFF,
        ensures
            ({
                let pages = (region.size + 0xFFF) / 0x1000;
                &&& frames@.len() < pages ==> r is Err && r->Err_0@ == "Not enough physical frames for region"@
                &&& frames@.len() >= pages ==> r is Ok && r->Ok_0@.len() == pages && forall|i: int|
                    0 <= i < pages ==> #[trigger] r->Ok_0@[i] == (PageMapping {
                        pml4_phys: self.spec_pml4(),
                        virt: (region.start + i * 0x1000) as u64,
                        phys: frames@[i],
                        flags: region.flags,
                    })
            }),
    {
        let num_pages = (region.size + 0xFFF) / 0x1000;
        if (frames.len() as u64) < num_pages {
            return Err("Not enough physical frames for region");
        }
        let mut out: Vec<PageMapping> = Vec::new();
        let mut i: u64 = 0;
        while i < num_pages
            invariant
                num_pages == (region.size + 0xFFF) / 0x1000,
                num_pages <= frames@.len(),
                region_fits(*region),
                region.size <= u64::MAX - 0xFFF,
                i <= num_pages,
                out@.len() == i,
                forall|k: int|
                    0 <= k < i ==> #[trigger] out@[k] == (PageMapping {
                        pml4_phys: self.spec_pml4(),
                        virt: (region.start + k * 0x1000) as u64,
                        phys: frames@[k],
                        flags: region.flags,
                    }),
            decreases num_pages - i,
        {
            assert(i * 0x1000 < region.size) by (nonlinear_arith)
                requires
                    i < num_pages,
                    num_pages == (region.size + 0xFFF) / 0x1000,
            ;
            let virt = region.start + i * 0x1000;
            out.push(PageMapping { pml4_phys: self.pml4_phys, virt, phys: frames[i as usize], flags: region.flags });
            i = i + 1;
        }
        Ok(out)
    }
}

/// Number of 4 KB pages covering `size` bytes.
pub fn pages_for(size: u64) -> (r: u64)
    requires
        size <= u64::MAX - 0xFFF,
    ensures
        r == (size + 0xFFF) / 0x1000,
{
    (size + 0xFFF) / 0x1000
}

/// First page boundary at or below a segment's start.
pub open spec fn seg_page_start(s: LoadedSegment) -> int {
    s.vaddr - s.vaddr % 0x1000
}

/// First page boundary at or above a segment's end.
pub open spec fn seg_page_end(s: LoadedSegment) -> int {
    (s.vaddr + s.memsz + 0xFFF) / 0x1000 * 0x1000
}

/// The segment can be rounded out to whole pages within the address space.
pub open spec fn seg_fits(s: LoadedSegment) -> bool {
    s.vaddr + s.memsz + 0xFFF <= u64::MAX
}

/// The region kind a lone segment gets: code when executable, else data when
/// writable, else read-only data.
pub open spec fn seg_region_type(s: LoadedSegment) -> RegionType {
    if s.flags & PF_X != 0 {
        RegionType::Code
    } else if s.flags & PF_W != 0 {
        RegionType::Data
    } else {
        RegionType::ReadOnlyData
    }
}

/// The page range `(start, end, index)` of segment `i`.
pub open spec fn seg_range(segs: Seq<LoadedSegment>, i: int) -> (u64, u64, usize) {
    (seg_page_start(segs[i]) as u64, seg_page_end(segs[i]) as u64, i as usize)
}

/// `r` lists the page ranges of all segments exactly once, by increasing start,
/// segments with equal starts in their original order.
pub open spec fn sorted_ranges(segs: Seq<LoadedSegment>, r: Seq<(u64, u64, usize)>) -> bool {
    &&& r.len() == segs.len()
    &&& forall|k: int| 0 <= k < r.len() ==> (#[trigger] r[k]).2 < segs.len() && r[k] == seg_range(segs, r[k].2 as int)
    &&& forall|a: int, b: int|
        0 <= a < b < r.len() ==> (#[trigger] r[a]).0 < (#[trigger] r[b]).0 || (r[a].0 == r[b].0 && r[a].2 < r[b].2)
}

/// A merged region as plain values: start, size, kind, and the segments in it.
pub type MergedSpec = (u64, u64, RegionType, Seq<usize>);

/// Merge the first `n` sorted page ranges: a range that starts before the end of
/// the last region joins it (the region grows to cover it; a writable segment
/// makes it Data, an executable one makes it Code unless it is Data); otherwise it
/// starts a new region.
pub open spec fn merge_spec(segs: Seq<LoadedSegment>, sorted: Seq<(u64, u64, usize)>, n: int) -> Seq<MergedSpec>
    decreases n,
{
    if n <= 0 || n > sorted.len() {
        Seq::empty()
    } else {
        let prev = merge_spec(segs, sorted, n - 1);
        let (ps, pe, idx) = sorted[n - 1];
        let seg = segs[idx as int];
        if prev.len() > 0 && ps < prev.last().0 + prev.last().1 {
            let last = prev.last();
            let last_end = last.0 + last.1;
            let new_end = if last_end >= pe {
                last_end
            } else {
                pe as int
            };
            let t = if seg.flags & PF_W != 0 {
                RegionType::Data
            } else if seg.flags & PF_X != 0 && last.2 != RegionType::Data {
                RegionType::Code
            } else {
                last.2
            };
            prev.update(prev.len() - 1, (last.0, (new_end - last.0) as u64, t, last.3.push(idx)))
        } else {
            prev.push((ps, (pe - ps) as u64, seg_region_type(seg), seq![idx]))
        }
    }
}

/// A region built from ELF segments that share pages.
pub struct MergedRegion {
    /// Page-aligned start.
    pub page_aligned_start: u64,
    /// Size in bytes (whole pages).
    pub aligned_size: u64,
    /// Kind of the region.
    pub region_type: RegionType,
    /// Indices of the segments it covers.
    pub contributing_segments: Vec<usize>,
}

/// The merged region `m` is `s`.
pub open spec fn merged_is(m: MergedRegion, s: MergedSpec) -> bool {
    m.page_aligned_start == s.0 && m.aligned_size == s.1 && m.region_type == s.2 && m.contributing_segments@ == s.3
}

/// Round a segment's extent out to whole pages.
fn segment_range(seg: &LoadedSegment) -> (r: (u64, u64))
    requires
        seg_fits(*seg),
    ensures
        r.0 == seg_page_start(*seg),
        r.1 == seg_page_end(*seg),
        r.0 <= seg.vaddr,
        seg.vaddr + seg.memsz <= r.1,
{
    let page_start = seg.vaddr - seg.vaddr % 0x1000;
    let page_end = (seg.vaddr + seg.memsz + 0xFFF) / 0x1000 * 0x1000;
    assert((seg.vaddr + seg.memsz + 0xFFF) / 0x1000 * 0x1000 >= seg.vaddr + seg.memsz) by (nonlinear_arith)
        requires
            seg.vaddr + seg.memsz + 0xFFF <= u64::MAX,
    ;
    assert((seg.vaddr + seg.memsz + 0xFFF) / 0x1000 * 0x1000 <= seg.vaddr + seg.memsz + 0xFFF) by (nonlinear_arith);
    (page_start, page_end)
}

/// The page ranges of the segments, sorted by start (stable).
fn sort_ranges(segments: &[LoadedSegment]) -> (r: Vec<(u64, u64, usize)>)
    requires
        forall|i: int| 0 <= i < segments@.len() ==> seg_fits(#[trigger] segments@[i]),
    ensures
        sorted_ranges(segments@, r@),
{
    let mut out: Vec<(u64, u64, usize)> = Vec::new();
    let mut i: usize = 0;
    while i < segments.len()
        invariant
            i <= segments@.len(),
            forall|j: int| 0 <= j < segments@.len() ==> seg_fits(#[trigger] segments@[j]),
            out@.len() == i,
            forall|k: int| 0 <= k < out@.len() ==> (#[trigger] out@[k]).2 < i && out@[k] == seg_range(segments@, out@[k].2 as int),
            forall|a: int, b: int|
                0 <= a < b < out@.len() ==> (#[trigger] out@[a]).0 < (#[trigger] out@[b]).0 || (out@[a].0 == out@[b].0
                    && out@[a].2 < out@[b].2),
            forall|a: int, b: int| 0 <= a < b < out@.len() ==> (#[trigger] out@[a]).2 != (#[trigger] out@[b]).2,
        decreases segments@.len() - i,
    {
        let (ps, pe) = segment_range(&segments[i]);
        let mut p: usize = 0;
        while p < out.len() && out[p].0 <= ps
            invariant
                p <= out@.len(),
                forall|k: int| 0 <= k < p ==> (#[trigger] out@[k]).0 <= ps,
            decreases out@.len() - p,
        {
            p = p + 1;
        }
        let ghost before = out@;
        out.insert(p, (ps, pe, i));
        proof {
            assert(out@ == before.insert(p as int, (ps, pe, i)));
            assert forall|a: int, b: int| 0 <= a < b < out@.len() implies (#[trigger] out@[a]).0 < (
            #[trigger] out@[b]).0 || (out@[a].0 == out@[b].0 && out@[a].2 < out@[b].2) by {
                if b < p {
                } else if b == p {
                    assert(out@[a] == before[a]);
                } else if a < p {
                    assert(out@[b] == before[b - 1]);
                    if p < before.len() {
                        assert(before[p as int].0 > ps);
                    }
                } else if a == p {
                    assert(out@[b] == before[b - 1]);
                    assert(before[p as int].0 > ps);
                    if b - 1 > p {
                        assert(before[p as int].0 < before[b - 1].0 || before[p as int].0 == before[b - 1].0);
                    }
                } else {
                    assert(out@[a] == before[a - 1]);
                    assert(out@[b] == before[b - 1]);
                }
            }
        }
        i = i + 1;
    }
    out
}

/// Group the segments of an ELF image into page-aligned regions: segments sorted by
/// start page, and a segment whose pages begin before the end of the previous
/// region merged into it.
pub fn merge_overlapping_segments(segments: &[LoadedSegment]) -> (r: Vec<MergedRegion>)
    requires
        forall|i: int| 0 <= i < segments@.len() ==> seg_fits(#[trigger] segments@[i]),
    ensures
        exists|sorted: Seq<(u64, u64, usize)>|
            #![trigger sorted_ranges(segments@, sorted)]
            sorted_ranges(segments@, sorted) && r@.len() == merge_spec(segments@, sorted, sorted.len() as int).len()
                && forall|k: int|
                0 <= k < r@.len() ==> merged_is(#[trigger] r@[k], merge_spec(segments@, sorted, sorted.len() as int)[k]),
        forall|k: int| 0 <= k < r@.len() ==> (#[trigger] r@[k]).page_aligned_start + r@[k].aligned_size <= u64::MAX,
        forall|a: int, b: int|
            0 <= a < b < r@.len() ==> (#[trigger] r@[a]).page_aligned_start + r@[a].aligned_size
                <= (#[trigger] r@[b]).page_aligned_start,
        forall|k: int, j: int|
            0 <= k < r@.len() && 0 <= j < r@[k].contributing_segments@.len() ==> {
                let idx = #[trigger] r@[k].contributing_segments@[j];
                &&& idx < segments@.len()
                &&& r@[k].page_aligned_start <= segments@[idx as int].vaddr
            },
{
    let sorted = sort_ranges(segments);
    let mut merged: Vec<MergedRegion> = Vec::new();
    let mut n: usize = 0;
    while n < sorted.len()
        invariant
            n <= sorted@.len(),
            sorted_ranges(segments@, sorted@),
            merged@.len() == merge_spec(segments@, sorted@, n as int).len(),
            forall|k: int| 0 <= k < merged@.len() ==> merged_is(#[trigger] merged@[k], merge_spec(segments@, sorted@, n as int)[k]),
            forall|k: int| 0 <= k < merged@.len() ==> (#[trigger] merged@[k]).page_aligned_start + merged@[k].aligned_size <= u64::MAX,
            forall|a: int, b: int|
                0 <= a < b < merged@.len() ==> (#[trigger] merged@[a]).page_aligned_start + merged@[a].aligned_size
                    <= (#[trigger] merged@[b]).page_aligned_start,
            forall|k: int, j: int|
                0 <= k < merged@.len() && 0 <= j < merged@[k].contributing_segments@.len() ==> {
                    let idx = #[trigger] merged@[k].contributing_segments@[j];
                    &&& idx < segments@.len()
                    &&& merged@[k].page_aligned_start <= segments@[idx as int].vaddr
                },
            n > 0 ==> forall|k: int| 0 <= k < merged@.len() ==> (#[trigger] merged@[k]).page_aligned_start <= sorted@[n - 1].0,
            forall|i: int| 0 <= i < segments@.len() ==> seg_fits(#[trigger] segments@[i]),
        decreases sorted@.len() - n,
    {
        let (ps, pe, idx) = sorted[n];
        assert(sorted@[n as int] == seg_range(segments@, idx as int));
        assert(seg_fits(segments@[idx as int]));
        let seg = &segments[idx];
        let ghost prev = merge_spec(segments@, sorted@, n as int);
        let ghost before = merged@;
        let len = merged.len();
        let mut joined = false;
        if len > 0 {
            let last_start = merged[len - 1].page_aligned_start;
            let last_end = last_start + merged[len - 1].aligned_size;
            if ps < last_end {
                let new_end = if last_end >= pe {
                    last_end
                } else {
                    pe
                };
                let t = if seg.is_writable() {
                    RegionType::Data
                } else if seg.is_executable() && merged[len - 1].region_type != RegionType::Data {
                    RegionType::Code
                } else {
                    merged[len - 1].region_type
                };
                merged[len - 1].aligned_size = new_end - last_start;
                merged[len - 1].region_type = t;
                merged[len - 1].contributing_segments.push(idx);
                joined = true;
            }
        }
        if !joined {
            let region_type = if seg.is_executable() {
                RegionType::Code
            } else if seg.is_writable() {
                RegionType::Data
            } else {
                RegionType::ReadOnlyData
            };
            let mut contributors: Vec<usize> = Vec::new();
            contributors.push(idx);
            merged.push(
                MergedRegion {
                    page_aligned_start: ps,
                    aligned_size: pe - ps,
                    region_type,
                    contributing_segments: contributors,
                },
            );
        }
        proof {
            if n > 0 {
                assert(sorted@[n - 1].0 <= ps);
            }
            assert(ps <= seg.vaddr);
            assert forall|k: int, j: int|
                0 <= k < merged@.len() && 0 <= j < merged@[k].contributing_segments@.len() implies {
                    let idx2 = #[trigger] merged@[k].contributing_segments@[j];
                    &&& idx2 < segments@.len()
                    &&& merged@[k].page_aligned_start <= segments@[idx2 as int].vaddr
                } by {
                if k < before.len() && j < before[k].contributing_segments@.len() {
                    assert(merged@[k].contributing_segments@[j] == before[k].contributing_segments@[j]);
                    assert(merged@[k].page_aligned_start == before[k].page_aligned_start);
                }
            }
            assert forall|a: int, b: int| 0 <= a < b < merged@.len() implies (#[trigger] merged@[a]).page_aligned_start
                + merged@[a].aligned_size <= (#[trigger] merged@[b]).page_aligned_start by {
                if b < before.len() {
                    assert(merged@[b].page_aligned_start == before[b].page_aligned_start);
                    if a < before.len() - 1 || !joined {
                        assert(merged@[a] == before[a]);
                    }
                } else {
                    assert(a < before.len());
                    assert(merged@[a] == before[a]);
                    if a < before.len() - 1 {
                        assert(before[a].page_aligned_start + before[a].aligned_size <= before[before.len() - 1].page_aligned_start);
                    }
                }
            }
            let next = merge_spec(segments@, sorted@, n as int + 1);
            assert(merged@.len() == next.len());
            assert forall|k: int| 0 <= k < merged@.len() implies merged_is(#[trigger] merged@[k], next[k]) by {
                if k < prev.len() && !(joined && k == prev.len() - 1) {
                    assert(merged_is(merged@[k], prev[k]));
                } else if !joined {
                    assert(merged@[k].contributing_segments@ =~= seq![idx]);
                }
            }
        }
        n = n + 1;
    }
    merged
}

/// The message an ELF loading error is reported with when building an address space.
pub open spec fn elf_error_text_of(e: ElfError) -> Seq<char> {
    match e {
        ElfError::InvalidMagic => "Invalid ELF magic"@,
        ElfError::InvalidClass => "Not a 64-bit ELF"@,
        ElfError::InvalidEndianness => "Not little-endian"@,
        ElfError::InvalidVersion => "Invalid ELF version"@,
        ElfError::InvalidType => "Not an executable"@,
        ElfError::InvalidMachine => "Not x86-64"@,
        ElfError::FileTooSmall => "File too small"@,
        ElfError::ProgramHeaderOutOfBounds => "Invalid program headers"@,
        ElfError::InvalidAlignment => "Invalid alignment"@,
        ElfError::SegmentOverlapsKernel => "Segment overlaps kernel"@,
        ElfError::NoLoadableSegments => "No loadable segments"@,
    }
}

/// The message an ELF loading error is reported with when building an address space.
pub fn elf_error_text(e: ElfError) -> (r: &'static str)
    ensures
        r@ == elf_error_text_of(e),
{
    match e {
        ElfError::InvalidMagic => "Invalid ELF magic",
        ElfError::InvalidClass => "Not a 64-bit ELF",
        ElfError::InvalidEndianness => "Not little-endian",
        ElfError::InvalidVersion => "Invalid ELF version",
        ElfError::InvalidType => "Not an executable",
        ElfError::InvalidMachine => "Not x86-64",
        ElfError::FileTooSmall => "File too small",
        ElfError::ProgramHeaderOutOfBounds => "Invalid program headers",
        ElfError::InvalidAlignment => "Invalid alignment",
        ElfError::SegmentOverlapsKernel => "Segment overlaps kernel",
        ElfError::NoLoadableSegments => "No loadable segments",
    }
}

/// Copying a segment's bytes from the ELF file into its region.
#[derive(Debug, Clone, Copy, PartialEq, Eq, Structural)]
pub struct SegmentCopy {
    /// First byte of the segment's data in the file.
    pub file_start: usize,
    /// End (exclusive) of the segment's data in the file.
    pub file_end: usize,
    /// Where the data goes, counted from the start of the region.
    pub region_offset: u64,
}

/// The copies for the segments `idxs` of a region starting at `start`, taking the
/// first `n`: a segment with file data is copied when its data lies within the
/// file (of `data_len` bytes); otherwise it is skipped.
pub open spec fn copies_spec(segs: Seq<LoadedSegment>, idxs: Seq<usize>, start: u64, data_len: nat, n: int) -> Seq<
    SegmentCopy,
>
    decreases n,
{
    if n <= 0 || n > idxs.len() {
        Seq::empty()
    } else {
        let prev = copies_spec(segs, idxs, start, data_len, n - 1);
        let seg = segs[idxs[n - 1] as int];
        if seg.filesz > 0 && seg.file_offset + seg.filesz <= data_len {
            prev.push(
                SegmentCopy {
                    file_start: seg.file_offset as usize,
                    file_end: (seg.file_offset + seg.filesz) as usize,
                    region_offset: (seg.vaddr - start) as u64,
                },
            )
        } else {
            prev
        }
    }
}

/// The copies of file data into a region starting at `start` that holds the
/// segments `contributors`, in the order of `contributors`.
pub fn segment_copies(segments: &[LoadedSegment], contributors: &Vec<usize>, start: u64, data_len: usize) -> (r: Vec<
    SegmentCopy,
>)
    requires
        forall|j: int|
            0 <= j < contributors@.len() ==> {
                let idx = #[trigger] contributors@[j];
                &&& idx < segments@.len()
                &&& start <= segments@[idx as int].vaddr
                &&& segments@[idx as int].file_offset + segments@[idx as int].filesz <= usize::MAX
            },
    ensures
        r@ == copies_spec(segments@, contributors@, start, data_len as nat, contributors@.len() as int),
{
    let mut out: Vec<SegmentCopy> = Vec::new();
    let mut j: usize = 0;
    while j < contributors.len()
        invariant
            j <= contributors@.len(),
            forall|m: int|
                0 <= m < contributors@.len() ==> {
                    let idx = #[trigger] contributors@[m];
                    &&& idx < segments@.len()
                    &&& start <= segments@[idx as int].vaddr
                    &&& segments@[idx as int].file_offset + segments@[idx as int].filesz <= usize::MAX
                },
            out@ == copies_spec(segments@, contributors@, start, data_len as nat, j as int),
        decreases contributors@.len() - j,
    {
        let seg = &segments[contributors[j]];
        if seg.filesz > 0 {
            let file_start = seg.file_offset as usize;
            let file_end = file_start + seg.filesz as usize;
            if file_end <= data_len {
                out.push(SegmentCopy { file_start, file_end, region_offset: seg.vaddr - start });
            }
        }
        j = j + 1;
    }
    out
}

/// One region of an address space being built from an ELF image: the region,
/// the number of frames that back it, and the file data copied into it.
pub struct RegionBuild {
    pub region: MemoryRegion,
    pub pages: u64,
    pub copies: Vec<SegmentCopy>,
}

/// An address space laid out for an ELF image: its regions (the stack last),
/// the image's entry point, what each image region needs, and the stack region.
/// Backing the regions with frames, mapping them, and copying the data is left
/// to the caller.
pub struct AddressSpaceBuild {
    pub space: UserAddressSpace,
    pub entry_point: u64,
    pub regions: Vec<RegionBuild>,
    pub stack: MemoryRegion,
}

/// The region the first user stack of a fresh address space takes.
pub open spec fn first_stack_region() -> MemoryRegion {
    MemoryRegion {
        start: (USER_STACK_TOP - USER_STACK_SIZE) as u64,
        size: USER_STACK_SIZE,
        region_type: RegionType::Stack,
        flags: region_flags(RegionType::Stack),
    }
}

/// The region a merged region description stands for.
pub open spec fn merged_region(m: MergedSpec) -> MemoryRegion {
    MemoryRegion { start: m.0, size: m.1, region_type: m.2, flags: region_flags(m.2) }
}

/// `b` is the layout built for an image of `data_len` bytes with the segments
/// `segs` merged into `merged`, entry point `entry`, over the page table at `pml4`.
pub open spec fn build_is(
    b: AddressSpaceBuild,
    data_len: nat,
    pml4: u64,
    segs: Seq<LoadedSegment>,
    merged: Seq<MergedSpec>,
    entry: u64,
) -> bool {
    &&& b.entry_point == entry
    &&& b.stack == first_stack_region()
    &&& b.space.wf()
    &&& b.space.spec_pml4() == pml4
    &&& b.space.spec_heap_break() == INITIAL_HEAP_BREAK
    &&& b.space.spec_next_stack() == USER_STACK_TOP - USER_STACK_SIZE - STACK_GUARD_GAP
    &&& b.space.spec_regions() == merged.map_values(|m: MergedSpec| merged_region(m)).push(first_stack_region())
    &&& b.regions@.len() == merged.len()
    &&& forall|k: int|
        0 <= k < merged.len() ==> {
            let rb = #[trigger] b.regions@[k];
            &&& rb.region == merged_region(merged[k])
            &&& rb.pages == merged[k].1 / 0x1000
            &&& rb.copies@ == copies_spec(segs, merged[k].3, merged[k].0, data_len, merged[k].3.len() as int)
        }
}

/// Lay out the address space for an ELF image over the page table at `pml4_phys`:
/// load the image, merge its segments into page-aligned regions, add each region,
/// note the file data each region receives, and reserve the first user stack.
///
/// Fails with the loader's error message when the image does not load, and with
/// the address space's message when the stack would overlap an image region.
pub fn plan_address_space_from_elf(elf_data: &[u8], pml4_phys: u64) -> (r: Result<AddressSpaceBuild, &'static str>)
    requires
        header_error(elf_data@) is None && le16(elf_data@, 16) == ET_DYN ==> le64(elf_data@, 24) + PIE_BASE
            <= u64::MAX,
        load_elf_spec(elf_data@) is Ok ==> forall|k: int|
            0 <= k < load_elf_spec(elf_data@)->Ok_0.1.len() ==> (#[trigger] load_elf_spec(elf_data@)->Ok_0.1[k]).file_offset
                + load_elf_spec(elf_data@)->Ok_0.1[k].filesz <= usize::MAX,
    ensures
        match load_elf_spec(elf_data@) {
            Err(e) => r is Err && r->Err_0@ == elf_error_text_of(e),
            Ok((base, segs)) => exists|sorted: Seq<(u64, u64, usize)>|
                #![trigger sorted_ranges(segs, sorted)]
                {
                    let merged = merge_spec(segs, sorted, sorted.len() as int);
                    let clash = exists|k: int|
                        0 <= k < merged.len() && regions_overlap(
                            merged_region(#[trigger] merged[k]),
                            first_stack_region(),
                        );
                    &&& sorted_ranges(segs, sorted)
                    &&& clash ==> r is Err
                    &&& !clash ==> r is Ok && build_is(
                        r->Ok_0,
                        elf_data@.len(),
                        pml4_phys,
                        segs,
                        merged,
                        (le64(elf_data@, 24) + base) as u64,
                    )
                },
        },
{
    let loaded = match load_elf(elf_data) {
        Err(e) => return Err(elf_error_text(e)),
        Ok(l) => l,
    };
    proof {
        lemma_loaded_segments_in_user_space(elf_data@);
    }
    let segments = loaded.segments.as_slice();
    assert(forall|i: int| 0 <= i < segments@.len() ==> seg_fits(#[trigger] segments@[i]));
    let merged = merge_overlapping_segments(segments);
    let ghost sorted = choose|sorted: Seq<(u64, u64, usize)>|
        #![trigger sorted_ranges(segments@, sorted)]
        sorted_ranges(segments@, sorted) && merged@.len() == merge_spec(segments@, sorted, sorted.len() as int).len()
            && forall|k: int|
            0 <= k < merged@.len() ==> merged_is(#[trigger] merged@[k], merge_spec(segments@, sorted, sorted.len() as int)[k]);
    let ghost ms = merge_spec(segments@, sorted, sorted.len() as int);
    let mut space = UserAddressSpace::new(pml4_phys);
    let mut regions: Vec<RegionBuild> = Vec::new();
    let mut k: usize = 0;
    while k < merged.len()
        invariant
            k <= merged@.len(),
            merged@.len() == ms.len(),
            forall|m: int| 0 <= m < merged@.len() ==> merged_is(#[trigger] merged@[m], ms[m]),
            forall|m: int| 0 <= m < merged@.len() ==> (#[trigger] merged@[m]).page_aligned_start + merged@[m].aligned_size <= u64::MAX,
            forall|a: int, b: int|
                0 <= a < b < merged@.len() ==> (#[trigger] merged@[a]).page_aligned_start + merged@[a].aligned_size
                    <= (#[trigger] merged@[b]).page_aligned_start,
            forall|m: int, j: int|
                0 <= m < merged@.len() && 0 <= j < merged@[m].contributing_segments@.len() ==> {
                    let idx = #[trigger] merged@[m].contributing_segments@[j];
                    &&& idx < segments@.len()
                    &&& merged@[m].page_aligned_start <= segments@[idx as int].vaddr
                },
            forall|i: int|
                0 <= i < segments@.len() ==> (#[trigger] segments@[i]).file_offset + segments@[i].filesz <= usize::MAX,
            space.wf(),
            space.spec_pml4() == pml4_phys,
            space.spec_heap_break() == INITIAL_HEAP_BREAK,
            space.spec_next_stack() == USER_STACK_TOP,
            space.spec_regions() == ms.take(k as int).map_values(|m: MergedSpec| merged_region(m)),
            regions@.len() == k,
            forall|m: int|
                0 <= m < k ==> {
                    let rb = #[trigger] regions@[m];
                    &&& rb.region == merged_region(ms[m])
                    &&& rb.pages == ms[m].1 / 0x1000
                    &&& rb.copies@ == copies_spec(segments@, ms[m].3, ms[m].0, elf_data@.len(), ms[m].3.len() as int)
                },
        decreases merged@.len() - k,
    {
        let m = &merged[k];
        let region = MemoryRegion::new(m.page_aligned_start, m.aligned_size, m.region_type);
        proof {
            assert forall|i: int| 0 <= i < space.spec_regions().len() implies !regions_overlap(
                #[trigger] space.spec_regions()[i],
                region,
            ) by {
                assert(space.spec_regions()[i] == merged_region(ms[i]));
                assert(merged_is(merged@[i], ms[i]));
            }
        }
        match space.add_region(region) {
            Err(e) => {
                return Err(e);
            },
            Ok(()) => {},
        }
        assert(ms.take(k as int + 1).map_values(|m: MergedSpec| merged_region(m)) =~= ms.take(k as int).map_values(
            |m: MergedSpec| merged_region(m),
        ).push(region));
        let copies = segment_copies(segments, &m.contributing_segments, m.page_aligned_start, elf_data.len());
        regions.push(RegionBuild { region, pages: m.aligned_size / 0x1000, copies });
        k = k + 1;
    }
    assert(ms.take(ms.len() as int) =~= ms);
    let ghost regs = space.spec_regions();
    assert((USER_STACK_SIZE + 0xFFF) / 0x1000 * 0x1000 == USER_STACK_SIZE);
    assert(sorted_ranges(segments@, sorted));
    let stack = match space.allocate_stack(USER_STACK_SIZE) {
        Err(e) => {
            proof {
                let i = choose|i: int| 0 <= i < regs.len() && regions_overlap(#[trigger] regs[i], first_stack_region());
                assert(regs[i] == merged_region(ms[i]));
            }
            return Err(e);
        },
        Ok(s) => s,
    };
    proof {
        assert forall|k: int| 0 <= k < ms.len() implies !regions_overlap(
            merged_region(#[trigger] ms[k]),
            first_stack_region(),
        ) by {
            assert(regs[k] == merged_region(ms[k]));
        }
    }
    Ok(AddressSpaceBuild { space, entry_point: loaded.entry_point, regions, stack })
}

/// Part of a copy into frames: `len` bytes from `data_start` in the data go to
/// `frame_offset` in frame `frame`.
#[derive(Debug, Clone, Copy, PartialEq, Eq, Structural)]
pub struct CopyChunk {
    pub frame: usize,
    pub frame_offset: usize,
    pub data_start: usize,
    pub len: usize,
}

/// The chunks of copying `data_len` bytes into `frames` frames, writing at
/// `page_offset` in the first frame and at the start of the others, from frame
/// `k` and data position `start` on: each frame takes as much as fits, until the
/// data or the frames run out.
pub open spec fn chunks_from(frames: nat, data_len: nat, page_offset: nat, k: nat, start: nat) -> Seq<CopyChunk>
    decreases frames - k,
{
    if k >= frames || start >= data_len {
        Seq::empty()
    } else {
        let off: nat = if k == 0 { page_offset } else { 0 };
        let room: int = 0x1000 - off;
        let left: int = data_len - start;
        let len: nat = (if room <= left { room } else { left }) as nat;
        seq![CopyChunk { frame: k as usize, frame_offset: off as usize, data_start: start as usize, len: len as usize }]
            + chunks_from(frames, data_len, page_offset, k + 1, start + len)
    }
}

/// How copying `data_len` bytes into `frame_count` frames, starting at
/// `page_offset` within the first frame, splits into per-frame copies.
pub fn copy_chunks(frame_count: usize, data_len: usize, page_offset: u64) -> (r: Vec<CopyChunk>)
    requires
        page_offset <= 0x1000,
    ensures
        r@ == chunks_from(frame_count as nat, data_len as nat, page_offset as nat, 0, 0),
{
    let mut out: Vec<CopyChunk> = Vec::new();
    let mut data_offset: usize = 0;
    let mut frame_idx: usize = 0;
    while data_offset < data_len && frame_idx < frame_count
        invariant
            page_offset <= 0x1000,
            data_offset <= data_len,
            frame_idx <= frame_count,
            out@ + chunks_from(frame_count as nat, data_len as nat, page_offset as nat, frame_idx as nat, data_offset as nat)
                == chunks_from(frame_count as nat, data_len as nat, page_offset as nat, 0, 0),
        decreases frame_count - frame_idx,
    {
        let frame_offset: usize = if frame_idx == 0 { page_offset as usize } else { 0 };
        let available_in_frame = 0x1000 - frame_offset;
        let remaining = data_len - data_offset;
        let bytes_to_copy = if available_in_frame <= remaining { available_in_frame } else { remaining };
        let chunk = CopyChunk { frame: frame_idx, frame_offset, data_start: data_offset, len: bytes_to_copy };
        let ghost rest = chunks_from(
            frame_count as nat,
            data_len as nat,
            page_offset as nat,
            frame_idx as nat + 1,
            (data_offset + bytes_to_copy) as nat,
        );
        assert(chunks_from(frame_count as nat, data_len as nat, page_offset as nat, frame_idx as nat, data_offset as nat)
            == seq![chunk] + rest);
        assert(out@.push(chunk) + rest =~= out@ + (seq![chunk] + rest));
        out.push(chunk);
        data_offset = data_offset + bytes_to_copy;
        frame_idx = frame_idx + 1;
    }
    assert(chunks_from(frame_count as nat, data_len as nat, page_offset as nat, frame_idx as nat, data_offset as nat)
        =~= Seq::<CopyChunk>::empty());
    assert(out@ + Seq::<CopyChunk>::empty() =~= out@);
    out
}

/// Where the copy described by `c` ends in the data, given that it starts at `start`.
pub open spec fn chunks_end(c: Seq<CopyChunk>, start: nat) -> nat {
    if c.len() == 0 {
        start
    } else {
        (c.last().data_start + c.last().len) as nat
    }
}

/// Law: the chunks of a copy go to consecutive frames, each within its frame,
/// and take consecutive pieces of the data; when the frames have room for all of
/// it (past the offset in the first frame), the whole data is copied.
pub proof fn lemma_copy_chunks_cover(frames: nat, data_len: nat, page_offset: nat, k: nat, start: nat)
    requires
        page_offset <= 0x1000,
        start <= data_len <= usize::MAX,
        frames <= usize::MAX,
    ensures
        ({
            let c = chunks_from(frames, data_len, page_offset, k, start);
            &&& forall|i: int|
                0 <= i < c.len() ==> {
                    &&& (#[trigger] c[i]).frame == k + i
                    &&& c[i].frame_offset + c[i].len <= 0x1000
                    &&& c[i].frame_offset == (if k + i == 0 { page_offset } else { 0 })
                    &&& c[i].data_start + c[i].len <= data_len
                    &&& c[i].data_start == (if i == 0 { start as int } else { c[i - 1].data_start + c[i - 1].len })
                }
            &&& k <= frames && (frames - k) * 0x1000 >= (if k == 0 { page_offset } else { 0 }) + (data_len - start)
                ==> chunks_end(c, start) == data_len
        }),
    decreases frames - k,
{
    let c = chunks_from(frames, data_len, page_offset, k, start);
    if k >= frames || start >= data_len {
    } else {
        let off: nat = if k == 0 { page_offset } else { 0 };
        let room: int = 0x1000 - off;
        let left: int = data_len - start;
        let len: nat = (if room <= left { room } else { left }) as nat;
        let rest = chunks_from(frames, data_len, page_offset, k + 1, start + len);
        lemma_copy_chunks_cover(frames, data_len, page_offset, k + 1, start + len);
        assert(c == seq![CopyChunk { frame: k as usize, frame_offset: off as usize, data_start: start as usize, len: len as usize }] + rest);
        assert forall|i: int| 0 <= i < c.len() implies {
            &&& (#[trigger] c[i]).frame == k + i
            &&& c[i].frame_offset + c[i].len <= 0x1000
            &&& c[i].frame_offset == (if k + i == 0 { page_offset } else { 0 })
            &&& c[i].data_start + c[i].len <= data_len
            &&& c[i].data_start == (if i == 0 { start as int } else { c[i - 1].data_start + c[i - 1].len })
        } by {
            if i > 0 {
                assert(c[i] == rest[i - 1]);
                if i > 1 {
                    assert(c[i - 1] == rest[i - 2]);
                }
            }
        }
        if (frames - k) * 0x1000 >= off + (data_len - start) {
            if room <= left {
                assert((frames - (k + 1)) * 0x1000 >= 0 + (data_len - (start + len))) by (nonlinear_arith)
                    requires
                        (frames - k) * 0x1000 >= off + (data_len - start),
                        len == 0x1000 - off,
                        k < frames,
                ;
            }
            if rest.len() == 0 {
                assert(chunks_end(c, start) == start + len);
            } else {
                assert(c.last() == rest.last());
            }
        }
    }
}

} // verus!
