//! # ELF relocations for KASLR
//!
//! Decodes x86-64 `Elf64_Rela` entries and computes the fix-ups that move a
//! kernel linked at `kernel_base` to `kernel_base + kaslr_offset`.
//!
//! - `R_X86_64_RELATIVE` (8): the word at `r_offset` becomes `B + A`.
//! - `R_X86_64_64` (1): `S + A` (not applied here).
use vstd::prelude::*;

verus! {

/// ELF relocation types for x86-64.
#[derive(Debug, Clone, Copy, PartialEq, Eq, Structural)]
pub enum RelocationType {
    /// No relocation (0).
    RNone,
    /// Direct 64-bit relocation, S + A (1).
    R64,
    /// PC-relative 32-bit relocation, S + A - P (2).
    PC32,
    /// 32-bit GOT entry, G + A (3).
    GOT32,
    /// 32-bit PLT address, L + A - P (4).
    PLT32,
    /// Copy symbol at runtime (5).
    Copy,
    /// Create GOT entry (6).
    GlobDAT,
    /// Create PLT entry (7).
    JumpSlot,
    /// Adjust by program base, B + A (8).
    Relative,
}

/// The relocation type numbered `value`, if it is one of the known ones.
pub open spec fn relocation_type_of(value: u32) -> Option<RelocationType> {
    if value == 0 {
        Some(RelocationType::RNone)
    } else if value == 1 {
        Some(RelocationType::R64)
    } else if value == 2 {
        Some(RelocationType::PC32)
    } else if value == 3 {
        Some(RelocationType::GOT32)
    } else if value == 4 {
        Some(RelocationType::PLT32)
    } else if value == 5 {
        Some(RelocationType::Copy)
    } else if value == 6 {
        Some(RelocationType::GlobDAT)
    } else if value == 7 {
        Some(RelocationType::JumpSlot)
    } else if value == 8 {
        Some(RelocationType::Relative)
    } else {
        None
    }
}

impl RelocationType {
    /// Decode a relocation type number.
    pub fn from_u32(value: u32) -> (r: Option<Self>)
        ensures
            r == relocation_type_of(value),
    {
        match value {
            0 => Some(RelocationType::RNone),
            1 => Some(RelocationType::R64),
            2 => Some(RelocationType::PC32),
            3 => Some(RelocationType::GOT32),
            4 => Some(RelocationType::PLT32),
            5 => Some(RelocationType::Copy),
            6 => Some(RelocationType::GlobDAT),
            7 => Some(RelocationType::JumpSlot),
            8 => Some(RelocationType::Relative),
            _ => None,
        }
    }

    /// The conventional name of the relocation type.
    pub fn name(&self) -> (r: &'static str)
        ensures
            r@ == match *self {
                RelocationType::RNone => "R_X86_64_NONE"@,
                RelocationType::R64 => "R_X86_64_64"@,
                RelocationType::PC32 => "R_X86_64_PC32"@,
                RelocationType::GOT32 => "R_X86_64_GOT32"@,
                RelocationType::PLT32 => "R_X86_64_PLT32"@,
                RelocationType::Copy => "R_X86_64_COPY"@,
                RelocationType::GlobDAT => "R_X86_64_GLOB_DAT"@,
                RelocationType::JumpSlot => "R_X86_64_JUMP_SLOT"@,
                RelocationType::Relative => "R_X86_64_RELATIVE"@,
            },
    {
        match self {
            RelocationType::RNone => "R_X86_64_NONE",
            RelocationType::R64 => "R_X86_64_64",
            RelocationType::PC32 => "R_X86_64_PC32",
            RelocationType::GOT32 => "R_X86_64_GOT32",
            RelocationType::PLT32 => "R_X86_64_PLT32",
            RelocationType::Copy => "R_X86_64_COPY",
            RelocationType::GlobDAT => "R_X86_64_GLOB_DAT",
            RelocationType::JumpSlot => "R_X86_64_JUMP_SLOT",
            RelocationType::Relative => "R_X86_64_RELATIVE",
        }
    }
}

/// ELF64 Rela relocation entry (with addend).
#[derive(Debug, Clone, Copy, PartialEq, Eq, Structural)]
pub struct Elf64Rela {
    /// Address where the relocation applies.
    pub r_offset: u64,
    /// Relocation type (lower 32 bits) and symbol index (upper 32 bits).
    pub r_info: u64,
    /// Addend value.
    pub r_addend: i64,
}

impl Elf64Rela {
    /// The type field: the low 32 bits of `r_info`.
    pub open spec fn type_spec(&self) -> u32 {
        (self.r_info % 0x1_0000_0000) as u32
    }

    /// The symbol field: the high 32 bits of `r_info`.
    pub open spec fn symbol_spec(&self) -> u32 {
        (self.r_info / 0x1_0000_0000) as u32
    }

    /// Get the relocation type number.
    pub fn get_type(&self) -> (r: u32)
        ensures
            r == self.type_spec(),
    {
        let info = self.r_info;
        assert(info & 0xFFFF_FFFF == info % 0x1_0000_0000) by (bit_vector);
        (info & 0xFFFF_FFFF) as u32
    }

    /// Get the symbol table index.
    pub fn get_symbol(&self) -> (r: u32)
        ensures
            r == self.symbol_spec(),
    {
        let info = self.r_info;
        assert(info >> 32 == info / 0x1_0000_0000) by (bit_vector);
        (info >> 32) as u32
    }

    /// Get the typed relocation type.
    pub fn relocation_type(&self) -> (r: Option<RelocationType>)
        ensures
            r == relocation_type_of(self.type_spec()),
    {
        RelocationType::from_u32(self.get_type())
    }
}

/// A `R_X86_64_RELATIVE` entry can be moved without leaving the 64-bit range:
/// its target address and its new value fit.
pub open spec fn relative_fits(rela: Elf64Rela, kaslr_offset: u64, kernel_base: u64) -> bool {
    &&& rela.r_offset + kaslr_offset <= u64::MAX
    &&& i64::MIN <= (kernel_base as i64) + (kaslr_offset as i64) <= i64::MAX
    &&& i64::MIN <= (kernel_base as i64) + (kaslr_offset as i64) + rela.r_addend <= i64::MAX
}

/// The (address, value) writes for the RELATIVE entries among the first `n`, in order.
pub open spec fn relative_writes(rels: Seq<Elf64Rela>, kaslr_offset: u64, kernel_base: u64, n: int) -> Seq<
    (u64, u64),
>
    decreases n,
{
    if n <= 0 || n > rels.len() {
        Seq::empty()
    } else {
        let prev = relative_writes(rels, kaslr_offset, kernel_base, n - 1);
        let r = rels[n - 1];
        if relocation_type_of(r.type_spec()) == Some(RelocationType::Relative) {
            prev.push(
                (
                    (r.r_offset + kaslr_offset) as u64,
                    ((kernel_base as i64) + (kaslr_offset as i64) + r.r_addend) as i64 as u64,
                ),
            )
        } else {
            prev
        }
    }
}

/// Compute the KASLR fix-ups for a relocation table.
///
/// For every `R_X86_64_RELATIVE` entry, in table order, the word at
/// `r_offset + kaslr_offset` must become `kernel_base + kaslr_offset + r_addend`
/// (computed as a signed 64-bit value). Other entries are skipped. The number of
/// writes is the number of relocations applied.
pub fn kaslr_relocation_writes(relocations: &[Elf64Rela], kaslr_offset: u64, kernel_base: u64) -> (r: Vec<
    (u64, u64),
>)
    requires
        forall|i: int|
            0 <= i < relocations@.len() && relocation_type_of(#[trigger] relocations@[i].type_spec())
                == Some(RelocationType::Relative) ==> relative_fits(relocations@[i], kaslr_offset, kernel_base),
    ensures
        r@ == relative_writes(relocations@, kaslr_offset, kernel_base, relocations@.len() as int),
{
    let mut writes: Vec<(u64, u64)> = Vec::new();
    let mut i: usize = 0;
    while i < relocations.len()
        invariant
            i <= relocations@.len(),
            forall|k: int|
                0 <= k < relocations@.len() && relocation_type_of(#[trigger] relocations@[k].type_spec())
                    == Some(RelocationType::Relative) ==> relative_fits(relocations@[k], kaslr_offset, kernel_base),
            writes@ == relative_writes(relocations@, kaslr_offset, kernel_base, i as int),
        decreases relocations@.len() - i,
    {
        let rela = relocations[i];
        match rela.relocation_type() {
            Some(RelocationType::Relative) => {
                assert(relative_fits(relocations@[i as int], kaslr_offset, kernel_base));
                let target_addr = rela.r_offset + kaslr_offset;
                let value = (kernel_base as i64 + kaslr_offset as i64 + rela.r_addend) as u64;
                writes.push((target_addr, value));
            },
            _ => {},
        }
        i = i + 1;
    }
    writes
}

} // verus!
