//! # The Ward of the Unseen Paths (KASLR)
//!
//! The kernel is placed at a randomized offset above its default base. The
//! offset is drawn from 24 bits of entropy, aligned to 16MB, and bounded by 256MB.
use vstd::prelude::*;

verus! {

/// Default kernel base (higher half).
pub const KERNEL_BASE_DEFAULT: u64 = 0xFFFF_8000_0000_0000;

/// Maximum KASLR offset (256MB).
pub const MAX_KASLR_OFFSET: u64 = 0x1000_0000;

/// KASLR alignment (16MB).
pub const KASLR_ALIGNMENT: u64 = 0x100_0000;

/// Entropy bits used for KASLR.
pub const ENTROPY_BITS: u32 = 24;

/// The KASLR state: the actual kernel base, the offset, and whether KASLR is on.
#[derive(Debug, Clone, Copy, PartialEq, Eq, Structural)]
pub struct Kaslr {
    pub kernel_base: u64,
    pub offset: u64,
    pub enabled: bool,
}

/// Mix raw entropy (xorshift) and reduce it to an offset: the mixed bits that
/// fall between the 16MB alignment and the 256MB bound.
pub open spec fn offset_from_entropy(entropy: u64) -> u64 {
    let e1 = entropy ^ (entropy >> 17u64);
    let e2 = e1 ^ (e1 << 31u64);
    let e3 = e2 ^ (e2 >> 8u64);
    e3 & 0x0F00_0000u64
}

/// Derive a KASLR offset from raw entropy: aligned to 16MB and below 256MB.
pub fn kaslr_offset_from_entropy(entropy: u64) -> (r: u64)
    ensures
        r == offset_from_entropy(entropy),
        r % KASLR_ALIGNMENT == 0,
        r < MAX_KASLR_OFFSET,
{
    let mut e = entropy;
    e = e ^ (e >> 17u64);
    e = e ^ (e << 31u64);
    e = e ^ (e >> 8u64);
    // Keep the bits of the range [KASLR_ALIGNMENT, MAX_KASLR_OFFSET).
    let below_max: u64 = MAX_KASLR_OFFSET - 1;
    let below_align: u64 = KASLR_ALIGNMENT - 1;
    let offset_mask: u64 = below_max & !below_align;
    assert(offset_mask == 0x0F00_0000u64) by (bit_vector)
        requires
            below_max == 0x0FFF_FFFFu64,
            below_align == 0x00FF_FFFFu64,
            offset_mask == below_max & !below_align,
    ;
    let offset = e & offset_mask;
    assert(offset % 0x100_0000 == 0 && offset < 0x1000_0000) by (bit_vector)
        requires
            offset == e & 0x0F00_0000u64,
    ;
    offset
}

impl Kaslr {
    /// KASLR before initialization: default base, no offset, disabled.
    pub fn new() -> (r: Self)
        ensures
            r == (Kaslr { kernel_base: KERNEL_BASE_DEFAULT, offset: 0, enabled: false }),
    {
        Kaslr { kernel_base: KERNEL_BASE_DEFAULT, offset: 0, enabled: false }
    }

    /// Enable KASLR with the given offset.
    pub fn with_offset(offset: u64) -> (r: Self)
        requires
            offset < MAX_KASLR_OFFSET,
        ensures
            r == (Kaslr { kernel_base: (KERNEL_BASE_DEFAULT + offset) as u64, offset, enabled: true }),
    {
        Kaslr { kernel_base: KERNEL_BASE_DEFAULT + offset, offset, enabled: true }
    }

    /// The actual kernel base.
    pub fn get_kernel_base(&self) -> (r: u64)
        ensures
            r == self.kernel_base,
    {
        self.kernel_base
    }

    /// The KASLR offset.
    pub fn get_kaslr_offset(&self) -> (r: u64)
        ensures
            r == self.offset,
    {
        self.offset
    }

    /// Whether KASLR is enabled.
    pub fn is_kaslr_enabled(&self) -> (r: bool)
        ensures
            r == self.enabled,
    {
        self.enabled
    }

    /// Entropy bits in use: 24 when enabled, 0 otherwise.
    pub fn get_entropy_bits(&self) -> (r: u32)
        ensures
            r == (if self.enabled { ENTROPY_BITS } else { 0 }),
    {
        if self.enabled {
            ENTROPY_BITS
        } else {
            0
        }
    }

    /// Translate a default (link-time) kernel address to its randomized address.
    pub fn apply_kaslr_offset(&self, default_addr: u64) -> (r: u64)
        requires
            self.enabled && default_addr >= KERNEL_BASE_DEFAULT ==> default_addr + self.offset <= u64::MAX,
        ensures
            r == (if self.enabled && default_addr >= KERNEL_BASE_DEFAULT {
                (default_addr + self.offset) as u64
            } else {
                default_addr
            }),
    {
        if self.enabled && default_addr >= KERNEL_BASE_DEFAULT {
            default_addr + self.offset
        } else {
            default_addr
        }
    }

    /// Translate a randomized kernel address back to its default address.
    pub fn remove_kaslr_offset(&self, actual_addr: u64) -> (r: u64)
        requires
            self.enabled && actual_addr >= self.kernel_base ==> actual_addr >= self.offset,
        ensures
            r == (if self.enabled && actual_addr >= self.kernel_base {
                (actual_addr - self.offset) as u64
            } else {
                actual_addr
            }),
    {
        if self.enabled && actual_addr >= self.kernel_base {
            actual_addr - self.offset
        } else {
            actual_addr
        }
    }
}

/// The size of the KASLR range in MB.
pub fn get_entropy_range_mb() -> (r: u64)
    ensures
        r == 256,
{
    assert(0x1000_0000u64 / 0x10_0000u64 == 256) by (nonlinear_arith);
    MAX_KASLR_OFFSET / (1024 * 1024)
}

/// Law: with KASLR enabled, removing the offset from an applied kernel address gives
/// back the default address.
pub proof fn lemma_kaslr_roundtrip(k: Kaslr, addr: u64)
    requires
        k.enabled,
        k.kernel_base == KERNEL_BASE_DEFAULT + k.offset,
        addr >= KERNEL_BASE_DEFAULT,
        addr + k.offset <= u64::MAX,
    ensures
        ({
            let actual = (addr + k.offset) as u64;
            &&& actual >= k.kernel_base
            &&& (actual - k.offset) as u64 == addr
        }),
{
}

} // verus!
