//! # ASLR - Address Space Layout Randomization
//!
//! Randomizes memory layout to prevent exploits that rely on predictable addresses.
//! - Code: 16MB range from 0x00400000, page-aligned
//! - Stack: 256MB range from 0x70000000, page-aligned
//! - Heap: 256MB range from 0x10000000, page-aligned
//! - Capability table: 1MB range from 0x60000000, page-aligned
use vstd::prelude::*;
use super::entropy::{range_value, ChaCha8Rng, HardwareRng};

verus! {

/// Memory layout for a process/thread with ASLR.
#[derive(Debug, Clone, Copy)]
pub struct RandomizedLayout {
    /// Randomized code base address.
    pub code_base: usize,
    /// Randomized stack base address (top of stack).
    pub stack_base: usize,
    /// Randomized heap base address.
    pub heap_base: usize,
    /// Randomized capability table location.
    pub capability_table: usize,
    /// Entropy used for this layout (for auditing).
    pub entropy_bits: u32,
}

/// `start` plus a page-aligned offset drawn from `value`, within `pages` pages.
pub open spec fn page_in_range(start: int, pages: int, value: u64) -> int {
    start + ((value as usize) % (pages as usize)) as int * 0x1000
}

/// The layout `r` was drawn from the generator `g0`, leaving it as `g4`: four
/// successive draws place the code base, stack base, heap base and capability table.
pub open spec fn layout_drawn(g0: ChaCha8Rng, g4: ChaCha8Rng, r: RandomizedLayout) -> bool {
    &&& r.entropy_bits == 100
    &&& exists|r1: ChaCha8Rng, r2: ChaCha8Rng, r3: ChaCha8Rng|
        {
            &&& g0.next_rng(r1) && r1.next_rng(r2) && r2.next_rng(r3) && r3.next_rng(g4)
            &&& r.code_base == page_in_range(0x0040_0000, 0x1000, g0.next_value())
            &&& r.stack_base == page_in_range(0x7000_0000, 0x10000, r1.next_value())
            &&& r.heap_base == page_in_range(0x1000_0000, 0x10000, r2.next_value())
            &&& r.capability_table == page_in_range(0x6000_0000, 0x100, r3.next_value())
        }
}

/// Every field of the layout lies in its range and is page-aligned.
pub open spec fn layout_in_ranges(l: RandomizedLayout) -> bool {
    &&& 0x0040_0000 <= l.code_base < 0x0140_0000 && l.code_base % 0x1000 == 0
    &&& 0x7000_0000 <= l.stack_base < 0x8000_0000 && l.stack_base % 0x1000 == 0
    &&& 0x1000_0000 <= l.heap_base < 0x2000_0000 && l.heap_base % 0x1000 == 0
    &&& 0x6000_0000 <= l.capability_table < 0x6010_0000 && l.capability_table % 0x1000 == 0
}

/// A page offset within a range of `pages` pages stays inside the range and page-aligned.
proof fn lemma_page_offset(x: int, pages: int)
    requires
        0 <= x < pages,
    ensures
        0 <= x * 0x1000 <= (pages - 1) * 0x1000,
        (x * 0x1000) % 0x1000 == 0,
{
    assert(0 <= x * 0x1000 <= (pages - 1) * 0x1000) by (nonlinear_arith)
        requires
            0 <= x < pages,
    ;
    vstd::arithmetic::div_mod::lemma_mod_multiples_basic(x, 0x1000);
}

impl RandomizedLayout {
    /// Create a new randomized memory layout from a hardware-seeded generator.
    pub fn new() -> (r: Self)
        ensures
            layout_in_ranges(r),
            r.entropy_bits == 100,
    {
        let mut rng = ChaCha8Rng::from_hardware();
        Self::from_rng(&mut rng)
    }

    /// Create a randomized layout from a specific generator: four successive draws
    /// place the code base, stack base, heap base and capability table.
    pub fn from_rng(rng: &mut ChaCha8Rng) -> (r: Self)
        requires
            old(rng).wf(),
        ensures
            final(rng).wf(),
            layout_in_ranges(r),
            r.entropy_bits == 28 + 28 + 24 + 20,
            layout_drawn(*old(rng), *final(rng), r),
    {
        let ghost r0 = *rng;
        let code_base = Self::randomize_code_base(rng);
        let ghost r1 = *rng;
        let stack_base = Self::randomize_stack_base(rng);
        let ghost r2 = *rng;
        let heap_base = Self::randomize_heap_base(rng);
        let ghost r3 = *rng;
        let capability_table = Self::randomize_capability_table(rng);
        let r = RandomizedLayout { code_base, stack_base, heap_base, capability_table, entropy_bits: 28 + 28 + 24 + 20 };
        assert(r0.next_rng(r1) && r1.next_rng(r2) && r2.next_rng(r3) && r3.next_rng(*rng));
        r
    }

    /// Randomize the code base: 0x00400000 plus up to 16MB, page-aligned.
    fn randomize_code_base(rng: &mut ChaCha8Rng) -> (r: usize)
        requires
            old(rng).wf(),
        ensures
            final(rng).wf(),
            old(rng).next_rng(*final(rng)),
            r == page_in_range(0x0040_0000, 0x1000, old(rng).next_value()),
            0x0040_0000 <= r < 0x0140_0000,
            r % 0x1000 == 0,
    {
        let x = rng.range(0, 0x0100_0000 / 0x1000);
        proof {
            lemma_page_offset(x as int, 0x1000);
        }
        0x0040_0000 + x * 0x1000
    }

    /// Randomize the stack base: 0x70000000 plus up to 256MB, page-aligned.
    fn randomize_stack_base(rng: &mut ChaCha8Rng) -> (r: usize)
        requires
            old(rng).wf(),
        ensures
            final(rng).wf(),
            old(rng).next_rng(*final(rng)),
            r == page_in_range(0x7000_0000, 0x10000, old(rng).next_value()),
            0x7000_0000 <= r < 0x8000_0000,
            r % 0x1000 == 0,
    {
        let x = rng.range(0, 0x1000_0000 / 0x1000);
        proof {
            lemma_page_offset(x as int, 0x10000);
        }
        0x7000_0000 + x * 0x1000
    }

    /// Randomize the heap base: 0x10000000 plus up to 256MB, page-aligned.
    fn randomize_heap_base(rng: &mut ChaCha8Rng) -> (r: usize)
        requires
            old(rng).wf(),
        ensures
            final(rng).wf(),
            old(rng).next_rng(*final(rng)),
            r == page_in_range(0x1000_0000, 0x10000, old(rng).next_value()),
            0x1000_0000 <= r < 0x2000_0000,
            r % 0x1000 == 0,
    {
        let x = rng.range(0, 0x1000_0000 / 0x1000);
        proof {
            lemma_page_offset(x as int, 0x10000);
        }
        0x1000_0000 + x * 0x1000
    }

    /// Randomize the capability table: 0x60000000 plus up to 1MB, page-aligned.
    fn randomize_capability_table(rng: &mut ChaCha8Rng) -> (r: usize)
        requires
            old(rng).wf(),
        ensures
            final(rng).wf(),
            old(rng).next_rng(*final(rng)),
            r == page_in_range(0x6000_0000, 0x100, old(rng).next_value()),
            0x6000_0000 <= r < 0x6010_0000,
            r % 0x1000 == 0,
    {
        let x = rng.range(0, 0x0010_0000 / 0x1000);
        proof {
            lemma_page_offset(x as int, 0x100);
        }
        0x6000_0000 + x * 0x1000
    }

    /// Randomize a per-thread stack offset: below 64KB, 16-byte aligned.
    pub fn randomize_stack_offset() -> (r: usize)
        ensures
            r < 0x10000,
            r % 16 == 0,
            exists|v: usize| #[trigger] range_value(v, 0, 0x1000) * 16 == r,
    {
        let x = HardwareRng::range(0, 0x10000 / 16);
        assert(x * 16 < 0x10000 && (x * 16) % 16 == 0) by (nonlinear_arith)
            requires
                x < 0x1000,
        ;
        x * 16
    }

    /// Get the entropy estimate in bits.
    pub fn entropy_bits(&self) -> (r: u32)
        ensures
            r == self.entropy_bits,
    {
        self.entropy_bits
    }
}

impl Default for RandomizedLayout {
    fn default() -> (r: Self)
        ensures
            layout_in_ranges(r),
    {
        Self::new()
    }
}

/// ASLR state: a master generator for process layouts, and whether ASLR is on.
pub struct AslrManager {
    rng: ChaCha8Rng,
    enabled: bool,
}

impl AslrManager {
    pub closed spec fn spec_enabled(self) -> bool {
        self.enabled
    }

    pub closed spec fn wf(self) -> bool {
        self.rng.wf()
    }

    /// The master generator layouts are drawn from.
    pub closed spec fn spec_rng(self) -> ChaCha8Rng {
        self.rng
    }

    /// Create a new ASLR manager (enabled).
    pub fn new() -> (r: Self)
        ensures
            r.wf(),
            r.spec_enabled(),
    {
        AslrManager { rng: ChaCha8Rng::from_hardware(), enabled: true }
    }

    /// Generate a layout: randomized when enabled, the deterministic one otherwise.
    pub fn generate_layout(&mut self) -> (r: RandomizedLayout)
        requires
            old(self).wf(),
        ensures
            final(self).wf(),
            final(self).spec_enabled() == old(self).spec_enabled(),
            old(self).spec_enabled() ==> layout_in_ranges(r) && layout_drawn(old(self).spec_rng(), final(self).spec_rng(), r),
            !old(self).spec_enabled() ==> r == Self::deterministic_spec() && final(self).spec_rng() == old(self).spec_rng(),
    {
        if self.enabled {
            RandomizedLayout::from_rng(&mut self.rng)
        } else {
            Self::deterministic_layout()
        }
    }

    /// The fixed layout used when ASLR is off.
    pub open spec fn deterministic_spec() -> RandomizedLayout {
        RandomizedLayout {
            code_base: 0x0040_0000,
            stack_base: 0x7000_0000,
            heap_base: 0x1000_0000,
            capability_table: 0x6000_0000,
            entropy_bits: 0,
        }
    }

    /// Get a deterministic (non-random) layout for debugging.
    pub fn deterministic_layout() -> (r: RandomizedLayout)
        ensures
            r == Self::deterministic_spec(),
    {
        RandomizedLayout {
            code_base: 0x0040_0000,
            stack_base: 0x7000_0000,
            heap_base: 0x1000_0000,
            capability_table: 0x6000_0000,
            entropy_bits: 0,
        }
    }

    /// Enable or disable ASLR.
    pub fn set_enabled(&mut self, enabled: bool)
        requires
            old(self).wf(),
        ensures
            final(self).wf(),
            final(self).spec_enabled() == enabled,
    {
        self.enabled = enabled;
    }

    /// Check if ASLR is enabled.
    pub fn is_enabled(&self) -> (r: bool)
        ensures
            r == self.spec_enabled(),
    {
        self.enabled
    }
}

impl Default for AslrManager {
    fn default() -> (r: Self)
        ensures
            r.wf(),
            r.spec_enabled(),
    {
        Self::new()
    }
}

/// The offset `randomize_offset` gives for the drawn value `v`: 0 when either
/// argument is 0, else `v` reduced modulo the number of whole `alignment` units in
/// `max_bytes`, times `alignment`.
pub open spec fn offset_value(v: u64, max_bytes: usize, alignment: usize) -> int {
    if alignment == 0 || max_bytes == 0 {
        0
    } else {
        ((v as usize) % (max_bytes / alignment)) * alignment
    }
}

/// The offset for a drawn value `v`: a multiple of `alignment` below `max_bytes`.
pub fn offset_from(v: u64, max_bytes: usize, alignment: usize) -> (r: usize)
    requires
        alignment != 0 && max_bytes != 0 ==> max_bytes >= alignment,
    ensures
        r == offset_value(v, max_bytes, alignment),
        alignment != 0 && max_bytes != 0 ==> r % alignment == 0 && r + alignment <= max_bytes,
{
    if alignment == 0 || max_bytes == 0 {
        return 0;
    }
    let max_units = max_bytes / alignment;
    assert(max_units >= 1) by (nonlinear_arith)
        requires
            max_bytes >= alignment,
            alignment > 0,
            max_units == max_bytes / alignment,
    ;
    let u = (v as usize) % max_units;
    proof {
        vstd::arithmetic::div_mod::lemma_fundamental_div_mod(max_bytes as int, alignment as int);
        vstd::arithmetic::div_mod::lemma_mod_multiples_basic(u as int, alignment as int);
        assert(u * alignment + alignment <= max_bytes) by (nonlinear_arith)
            requires
                u < max_units,
                max_bytes == alignment * max_units + max_bytes % alignment,
                max_bytes % alignment >= 0,
                alignment > 0,
        ;
    }
    u * alignment
}

/// Randomize a pointer offset: a multiple of `alignment` below `max_bytes`, drawn from the
/// fast entropy source; 0 when either argument is 0.
pub fn randomize_offset(max_bytes: usize, alignment: usize) -> (r: usize)
    requires
        alignment != 0 && max_bytes != 0 ==> max_bytes >= alignment,
    ensures
        alignment == 0 || max_bytes == 0 ==> r == 0,
        alignment != 0 && max_bytes != 0 ==> r % alignment == 0 && r + alignment <= max_bytes,
        exists|v: u64| #[trigger] offset_value(v, max_bytes, alignment) == r,
{
    if alignment == 0 || max_bytes == 0 {
        assert(offset_value(0, max_bytes, alignment) == 0);
        return 0;
    }
    offset_from(HardwareRng::fast_u64(), max_bytes, alignment)
}

} // verus!
