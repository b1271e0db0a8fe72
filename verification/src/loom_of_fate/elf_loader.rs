//! # ELF Loader
//!
//! Parses and validates ELF64 (x86-64, little-endian) executables: the file
//! header, the program header table, and the loadable segments.
//!
//! All multi-byte fields are read little-endian from the raw bytes, so the
//! input needs no particular alignment.
use vstd::prelude::*;

verus! {

/// ELF class: 64-bit.
pub const ELFCLASS64: u8 = 2;
/// ELF data encoding: little-endian.
pub const ELFDATA2LSB: u8 = 1;
/// ELF version: current.
pub const EV_CURRENT: u8 = 1;
/// ELF type: executable.
pub const ET_EXEC: u16 = 2;
/// ELF type: position-independent executable.
pub const ET_DYN: u16 = 3;
/// ELF machine: x86-64.
pub const EM_X86_64: u16 = 62;
/// Program header type: loadable segment.
pub const PT_LOAD: u32 = 1;
/// Program header flags: executable.
pub const PF_X: u32 = 1;
/// Program header flags: writable.
pub const PF_W: u32 = 2;
/// Program header flags: readable.
pub const PF_R: u32 = 4;
/// Size in bytes of the ELF64 file header.
pub const EHDR_SIZE: usize = 64;
/// Size in bytes of an ELF64 program header.
pub const PHDR_SIZE: usize = 56;
/// Highest user-space address a segment may reach.
pub const USER_SPACE_END: u64 = 0x0000_7FFF_FFFF_FFFF;
/// First address of the kernel half.
pub const KERNEL_SPACE_START: u64 = 0xFFFF_8000_0000_0000;
/// Load base chosen for position-independent executables.
pub const PIE_BASE: u64 = 0x0000_0000_0040_0000;

/// ELF64 file header.
#[derive(Debug, Clone, Copy, PartialEq, Eq)]
pub struct Elf64Ehdr {
    /// Magic number and class info.
    pub e_ident: [u8; 16],
    /// Object file type (ET_EXEC, ET_DYN, ...).
    pub e_type: u16,
    /// Target architecture (EM_X86_64).
    pub e_machine: u16,
    /// ELF version.
    pub e_version: u32,
    /// Entry point virtual address.
    pub e_entry: u64,
    /// Program header table file offset.
    pub e_phoff: u64,
    /// Section header table file offset.
    pub e_shoff: u64,
    /// Processor-specific flags.
    pub e_flags: u32,
    /// ELF header size.
    pub e_ehsize: u16,
    /// Program header entry size.
    pub e_phentsize: u16,
    /// Program header entry count.
    pub e_phnum: u16,
    /// Section header entry size.
    pub e_shentsize: u16,
    /// Section header entry count.
    pub e_shnum: u16,
    /// Section header string table index.
    pub e_shstrndx: u16,
}

/// ELF64 program header.
#[derive(Debug, Clone, Copy, PartialEq, Eq, Structural)]
pub struct Elf64Phdr {
    /// Segment type (PT_LOAD, PT_DYNAMIC, ...).
    pub p_type: u32,
    /// Segment flags (PF_R, PF_W, PF_X).
    pub p_flags: u32,
    /// Segment file offset.
    pub p_offset: u64,
    /// Segment virtual address.
    pub p_vaddr: u64,
    /// Segment physical address (unused on x86-64).
    pub p_paddr: u64,
    /// Segment size in file.
    pub p_filesz: u64,
    /// Segment size in memory.
    pub p_memsz: u64,
    /// Segment alignment.
    pub p_align: u64,
}

/// Errors that can occur during ELF loading.
#[derive(Debug, Clone, Copy, PartialEq, Eq, Structural)]
pub enum ElfError {
    /// Invalid ELF magic number.
    InvalidMagic,
    /// Wrong ELF class (not 64-bit).
    InvalidClass,
    /// Wrong endianness (not little-endian).
    InvalidEndianness,
    /// Wrong ELF version.
    InvalidVersion,
    /// Wrong ELF type (not executable or dynamic).
    InvalidType,
    /// Wrong machine architecture (not x86-64).
    InvalidMachine,
    /// File too small to contain headers.
    FileTooSmall,
    /// Program header out of bounds.
    ProgramHeaderOutOfBounds,
    /// Invalid alignment.
    InvalidAlignment,
    /// Segment overlaps with kernel space.
    SegmentOverlapsKernel,
    /// No loadable segments found.
    NoLoadableSegments,
}

impl ElfError {
    /// Human-readable description of the error.
    pub fn message(&self) -> (r: &'static str)
        ensures
            r@ == match *self {
                ElfError::InvalidMagic => "Invalid ELF magic number"@,
                ElfError::InvalidClass => "Not a 64-bit ELF file"@,
                ElfError::InvalidEndianness => "Not a little-endian ELF file"@,
                ElfError::InvalidVersion => "Invalid ELF version"@,
                ElfError::InvalidType => "Not an executable or PIE file"@,
                ElfError::InvalidMachine => "Not an x86-64 ELF file"@,
                ElfError::FileTooSmall => "ELF file too small"@,
                ElfError::ProgramHeaderOutOfBounds => "Program header out of bounds"@,
                ElfError::InvalidAlignment => "Invalid segment alignment"@,
                ElfError::SegmentOverlapsKernel => "Segment overlaps kernel space"@,
                ElfError::NoLoadableSegments => "No loadable segments"@,
            },
    {
        match self {
            ElfError::InvalidMagic => "Invalid ELF magic number",
            ElfError::InvalidClass => "Not a 64-bit ELF file",
            ElfError::InvalidEndianness => "Not a little-endian ELF file",
            ElfError::InvalidVersion => "Invalid ELF version",
            ElfError::InvalidType => "Not an executable or PIE file",
            ElfError::InvalidMachine => "Not an x86-64 ELF file",
            ElfError::FileTooSmall => "ELF file too small",
            ElfError::ProgramHeaderOutOfBounds => "Program header out of bounds",
            ElfError::InvalidAlignment => "Invalid segment alignment",
            ElfError::SegmentOverlapsKernel => "Segment overlaps kernel space",
            ElfError::NoLoadableSegments => "No loadable segments",
        }
    }
}

/// Information about a loaded ELF binary.
#[derive(Debug, Clone)]
pub struct LoadedElf {
    /// Entry point address.
    pub entry_point: u64,
    /// Base address where the ELF was loaded (for PIE).
    pub base_address: u64,
    /// Loaded segments.
    pub segments: Vec<LoadedSegment>,
}

/// Information about a loaded segment.
#[derive(Debug, Clone, Copy, PartialEq, Eq, Structural)]
pub struct LoadedSegment {
    /// Virtual address where the segment is loaded.
    pub vaddr: u64,
    /// Size of the segment in memory.
    pub memsz: u64,
    /// Size of the segment in the file.
    pub filesz: u64,
    /// Offset of the segment data in the file.
    pub file_offset: u64,
    /// Segment flags (readable, writable, executable).
    pub flags: u32,
}

impl LoadedSegment {
    /// Check if the segment is readable.
    pub fn is_readable(&self) -> (r: bool)
        ensures
            r == (self.flags & PF_R != 0),
    {
        (self.flags & PF_R) != 0
    }

    /// Check if the segment is writable.
    pub fn is_writable(&self) -> (r: bool)
        ensures
            r == (self.flags & PF_W != 0),
    {
        (self.flags & PF_W) != 0
    }

    /// Check if the segment is executable.
    pub fn is_executable(&self) -> (r: bool)
        ensures
            r == (self.flags & PF_X != 0),
    {
        (self.flags & PF_X) != 0
    }
}

/// Little-endian 16-bit value at `o`.
pub open spec fn le16(d: Seq<u8>, o: int) -> int {
    d[o] + d[o + 1] * 0x100
}

/// Little-endian 32-bit value at `o`.
pub open spec fn le32(d: Seq<u8>, o: int) -> int {
    le16(d, o) + le16(d, o + 2) * 0x1_0000
}

/// Little-endian 64-bit value at `o`.
pub open spec fn le64(d: Seq<u8>, o: int) -> int {
    le32(d, o) + le32(d, o + 4) * 0x1_0000_0000
}

/// The file header fields of `h` are those stored in the first 64 bytes of `d`.
pub open spec fn header_matches(h: Elf64Ehdr, d: Seq<u8>) -> bool {
    &&& h.e_ident@ == d.subrange(0, 16)
    &&& h.e_type == le16(d, 16)
    &&& h.e_machine == le16(d, 18)
    &&& h.e_version == le32(d, 20)
    &&& h.e_entry == le64(d, 24)
    &&& h.e_phoff == le64(d, 32)
    &&& h.e_shoff == le64(d, 40)
    &&& h.e_flags == le32(d, 48)
    &&& h.e_ehsize == le16(d, 52)
    &&& h.e_phentsize == le16(d, 54)
    &&& h.e_phnum == le16(d, 56)
    &&& h.e_shentsize == le16(d, 58)
    &&& h.e_shnum == le16(d, 60)
    &&& h.e_shstrndx == le16(d, 62)
}

/// The first check of the file header that `d` fails, if any.
pub open spec fn header_error(d: Seq<u8>) -> Option<ElfError> {
    if d.len() < 64 {
        Some(ElfError::FileTooSmall)
    } else if d[0] != 0x7f || d[1] != 0x45 || d[2] != 0x4c || d[3] != 0x46 {
        Some(ElfError::InvalidMagic)
    } else if d[4] != ELFCLASS64 {
        Some(ElfError::InvalidClass)
    } else if d[5] != ELFDATA2LSB {
        Some(ElfError::InvalidEndianness)
    } else if d[6] != EV_CURRENT || le32(d, 20) != 1 {
        Some(ElfError::InvalidVersion)
    } else if le16(d, 16) != ET_EXEC && le16(d, 16) != ET_DYN {
        Some(ElfError::InvalidType)
    } else if le16(d, 18) != EM_X86_64 {
        Some(ElfError::InvalidMachine)
    } else {
        None
    }
}

/// The program header stored at byte offset `o` of `d`.
pub open spec fn phdr_at(d: Seq<u8>, o: int) -> Elf64Phdr {
    Elf64Phdr {
        p_type: le32(d, o) as u32,
        p_flags: le32(d, o + 4) as u32,
        p_offset: le64(d, o + 8) as u64,
        p_vaddr: le64(d, o + 16) as u64,
        p_paddr: le64(d, o + 24) as u64,
        p_filesz: le64(d, o + 32) as u64,
        p_memsz: le64(d, o + 40) as u64,
        p_align: le64(d, o + 48) as u64,
    }
}

/// The program header table lies inside the file: its declared extent does, and so
/// does every 56-byte entry read from it.
pub open spec fn phdr_table_in_bounds(d: Seq<u8>, phoff: int, phentsize: int, phnum: int) -> bool {
    &&& phoff + phentsize * phnum <= d.len()
    &&& phnum > 0 ==> phoff + (phnum - 1) * phentsize + 56 <= d.len()
}

/// The program headers of the table at `phoff`.
pub open spec fn phdrs_at(d: Seq<u8>, phoff: int, phentsize: int, phnum: int) -> Seq<Elf64Phdr> {
    Seq::new(phnum as nat, |i: int| phdr_at(d, phoff + i * phentsize))
}

/// `x` is a power of two below 2^64.
pub open spec fn is_power_of_two_spec(x: u64) -> bool {
    exists|k: u64| k < 64 && x == #[trigger] (1u64 << k)
}

/// The check a loadable segment fails, if any.
pub open spec fn segment_error(p: Elf64Phdr) -> Option<ElfError> {
    if p.p_type != PT_LOAD {
        None
    } else if p.p_align > 0 && !is_power_of_two_spec(p.p_align) {
        Some(ElfError::InvalidAlignment)
    } else if p.p_vaddr + p.p_memsz > u64::MAX {
        Some(ElfError::SegmentOverlapsKernel)
    } else if p.p_vaddr >= KERNEL_SPACE_START || p.p_vaddr + p.p_memsz > USER_SPACE_END {
        Some(ElfError::SegmentOverlapsKernel)
    } else {
        None
    }
}

/// The segment record made from a program header.
pub open spec fn segment_of(p: Elf64Phdr) -> LoadedSegment {
    LoadedSegment {
        vaddr: p.p_vaddr,
        memsz: p.p_memsz,
        filesz: p.p_filesz,
        file_offset: p.p_offset,
        flags: p.p_flags,
    }
}

/// Walk the first `n` program headers: the first failing loadable segment's error,
/// or the loadable segments in order.
pub open spec fn collect_segments(ph: Seq<Elf64Phdr>, n: int) -> Result<Seq<LoadedSegment>, ElfError>
    decreases n,
{
    if n <= 0 || n > ph.len() {
        Ok(Seq::empty())
    } else {
        match collect_segments(ph, n - 1) {
            Err(e) => Err(e),
            Ok(s) => if ph[n - 1].p_type == PT_LOAD {
                match segment_error(ph[n - 1]) {
                    Some(e) => Err(e),
                    None => Ok(s.push(segment_of(ph[n - 1]))),
                }
            } else {
                Ok(s)
            },
        }
    }
}

/// Read a little-endian 16-bit value.
fn read_le16(d: &[u8], o: usize) -> (r: u16)
    requires
        o + 2 <= d.len(),
    ensures
        r == le16(d@, o as int),
{
    d[o] as u16 + (d[o + 1] as u16) * 0x100
}

/// Read a little-endian 32-bit value.
fn read_le32(d: &[u8], o: usize) -> (r: u32)
    requires
        o + 4 <= d.len(),
    ensures
        r == le32(d@, o as int),
{
    let lo = read_le16(d, o);
    let hi = read_le16(d, o + 2);
    lo as u32 + (hi as u32) * 0x1_0000
}

/// Read a little-endian 64-bit value.
fn read_le64(d: &[u8], o: usize) -> (r: u64)
    requires
        o + 8 <= d.len(),
    ensures
        r == le64(d@, o as int),
{
    let lo = read_le32(d, o);
    let hi = read_le32(d, o + 4);
    lo as u64 + (hi as u64) * 0x1_0000_0000
}

/// Parse and validate an ELF file header.
///
/// Checks, in order: size, magic number, class (64-bit), endianness
/// (little-endian), version, type (executable or PIE), machine (x86-64).
pub fn parse_elf_header(data: &[u8]) -> (r: Result<Elf64Ehdr, ElfError>)
    ensures
        match header_error(data@) {
            Some(e) => r == Err::<Elf64Ehdr, ElfError>(e),
            None => r matches Ok(h) && header_matches(h, data@),
        },
{
    if data.len() < EHDR_SIZE {
        return Err(ElfError::FileTooSmall);
    }
    if data[0] != 0x7F || data[1] != 0x45 || data[2] != 0x4c || data[3] != 0x46 {
        return Err(ElfError::InvalidMagic);
    }
    if data[4] != ELFCLASS64 {
        return Err(ElfError::InvalidClass);
    }
    if data[5] != ELFDATA2LSB {
        return Err(ElfError::InvalidEndianness);
    }
    let e_version = read_le32(data, 20);
    if data[6] != EV_CURRENT || e_version != 1 {
        return Err(ElfError::InvalidVersion);
    }
    let e_type = read_le16(data, 16);
    if e_type != ET_EXEC && e_type != ET_DYN {
        return Err(ElfError::InvalidType);
    }
    let e_machine = read_le16(data, 18);
    if e_machine != EM_X86_64 {
        return Err(ElfError::InvalidMachine);
    }
    let e_ident: [u8; 16] = [
        data[0],
        data[1],
        data[2],
        data[3],
        data[4],
        data[5],
        data[6],
        data[7],
        data[8],
        data[9],
        data[10],
        data[11],
        data[12],
        data[13],
        data[14],
        data[15],
    ];
    assert(e_ident@ =~= data@.subrange(0, 16));
    Ok(
        Elf64Ehdr {
            e_ident,
            e_type,
            e_machine,
            e_version,
            e_entry: read_le64(data, 24),
            e_phoff: read_le64(data, 32),
            e_shoff: read_le64(data, 40),
            e_flags: read_le32(data, 48),
            e_ehsize: read_le16(data, 52),
            e_phentsize: read_le16(data, 54),
            e_phnum: read_le16(data, 56),
            e_shentsize: read_le16(data, 58),
            e_shnum: read_le16(data, 60),
            e_shstrndx: read_le16(data, 62),
        },
    )
}

/// Read the program header at byte offset `o`.
fn read_phdr(d: &[u8], o: usize) -> (r: Elf64Phdr)
    requires
        o + 56 <= d.len(),
    ensures
        r == phdr_at(d@, o as int),
{
    Elf64Phdr {
        p_type: read_le32(d, o),
        p_flags: read_le32(d, o + 4),
        p_offset: read_le64(d, o + 8),
        p_vaddr: read_le64(d, o + 16),
        p_paddr: read_le64(d, o + 24),
        p_filesz: read_le64(d, o + 32),
        p_memsz: read_le64(d, o + 40),
        p_align: read_le64(d, o + 48),
    }
}

/// Parse the program headers described by `header`.
///
/// Fails with `ProgramHeaderOutOfBounds` unless the table, and every entry read
/// from it, lies inside the file.
pub fn parse_program_headers(data: &[u8], header: &Elf64Ehdr) -> (r: Result<Vec<Elf64Phdr>, ElfError>)
    ensures
        phdr_table_in_bounds(data@, header.e_phoff as int, header.e_phentsize as int, header.e_phnum as int)
            ==> (r matches Ok(v) && v@ == phdrs_at(
            data@,
            header.e_phoff as int,
            header.e_phentsize as int,
            header.e_phnum as int,
        )),
        !phdr_table_in_bounds(data@, header.e_phoff as int, header.e_phentsize as int, header.e_phnum as int)
            ==> r == Err::<Vec<Elf64Phdr>, ElfError>(ElfError::ProgramHeaderOutOfBounds),
{
    let len = data.len();
    let phoff = header.e_phoff;
    let phentsize = header.e_phentsize as u64;
    let phnum = header.e_phnum as u64;
    assert(phentsize * phnum <= 0xFFFF * 0xFFFF) by (nonlinear_arith)
        requires
            phentsize <= 0xFFFF,
            phnum <= 0xFFFF,
    ;
    let phtab_size = phentsize * phnum;
    let phtab_end = match phoff.checked_add(phtab_size) {
        Some(e) => e,
        None => return Err(ElfError::ProgramHeaderOutOfBounds),
    };
    if phtab_end > len as u64 {
        return Err(ElfError::ProgramHeaderOutOfBounds);
    }
    if phnum > 0 {
        assert((phnum - 1) * phentsize <= phentsize * phnum) by (nonlinear_arith)
            requires
                phnum >= 1,
        ;
        let last = phoff + (phnum - 1) * phentsize;
        if len < 56 || last > len as u64 - 56 {
            return Err(ElfError::ProgramHeaderOutOfBounds);
        }
    }
    let mut phdrs: Vec<Elf64Phdr> = Vec::new();
    let mut i: u64 = 0;
    while i < phnum
        invariant
            i <= phnum,
            phnum == header.e_phnum,
            phentsize == header.e_phentsize,
            phoff == header.e_phoff,
            data@.len() == len,
            phdr_table_in_bounds(data@, phoff as int, phentsize as int, phnum as int),
            phdrs@ == phdrs_at(data@, phoff as int, phentsize as int, i as int),
        decreases phnum - i,
    {
        assert(i * phentsize <= (phnum - 1) * phentsize) by (nonlinear_arith)
            requires
                i < phnum,
        ;
        let offset = phoff + i * phentsize;
        phdrs.push(read_phdr(data, offset as usize));
        assert(phdrs@ =~= phdrs_at(data@, phoff as int, phentsize as int, i + 1));
        i = i + 1;
    }
    Ok(phdrs)
}

/// Whether `x` is a power of two.
fn is_power_of_two(x: u64) -> (r: bool)
    ensures
        r == is_power_of_two_spec(x),
{
    let mut k: u64 = 0;
    while k < 64
        invariant
            k <= 64,
            forall|j: u64| j < k ==> x != #[trigger] (1u64 << j),
        decreases 64 - k,
    {
        if (1u64 << k) == x {
            return true;
        }
        k = k + 1;
    }
    false
}

/// Validate that a segment is safe to load: a loadable segment needs a
/// power-of-two alignment (or none) and must lie inside user space.
fn validate_segment(phdr: &Elf64Phdr) -> (r: Result<(), ElfError>)
    ensures
        match segment_error(*phdr) {
            Some(e) => r == Err::<(), ElfError>(e),
            None => r == Ok::<(), ElfError>(()),
        },
{
    if phdr.p_type != PT_LOAD {
        return Ok(());
    }
    if phdr.p_align > 0 && !is_power_of_two(phdr.p_align) {
        return Err(ElfError::InvalidAlignment);
    }
    let end_addr = match phdr.p_vaddr.checked_add(phdr.p_memsz) {
        Some(e) => e,
        None => return Err(ElfError::SegmentOverlapsKernel),
    };
    if phdr.p_vaddr >= KERNEL_SPACE_START || end_addr > USER_SPACE_END {
        return Err(ElfError::SegmentOverlapsKernel);
    }
    Ok(())
}

/// The outcome of loading the ELF image `d`, stated over its bytes.
pub open spec fn load_elf_spec(d: Seq<u8>) -> Result<(u64, Seq<LoadedSegment>), ElfError> {
    match header_error(d) {
        Some(e) => Err(e),
        None => {
            let phoff = le64(d, 32);
            let phentsize = le16(d, 54);
            let phnum = le16(d, 56);
            if !phdr_table_in_bounds(d, phoff, phentsize, phnum) {
                Err(ElfError::ProgramHeaderOutOfBounds)
            } else {
                let ph = phdrs_at(d, phoff, phentsize, phnum);
                match collect_segments(ph, ph.len() as int) {
                    Err(e) => Err(e),
                    Ok(s) => if s.len() == 0 {
                        Err(ElfError::NoLoadableSegments)
                    } else {
                        let base: u64 = if le16(d, 16) == ET_DYN {
                            PIE_BASE
                        } else {
                            0
                        };
                        Ok((base, s))
                    },
                }
            }
        },
    }
}

/// Load (parse and validate) an ELF file.
///
/// Position-independent executables get the base address 0x400000, others 0;
/// the entry point is the header's entry plus the base.
pub fn load_elf(data: &[u8]) -> (r: Result<LoadedElf, ElfError>)
    requires
        header_error(data@) is None && le16(data@, 16) == ET_DYN ==> le64(data@, 24) + PIE_BASE <= u64::MAX,
    ensures
        match load_elf_spec(data@) {
            Err(e) => r == Err::<LoadedElf, ElfError>(e),
            Ok((base, segs)) => r matches Ok(l) && l.base_address == base && l.segments@ == segs
                && l.entry_point == le64(data@, 24) + base,
        },
{
    let header = match parse_elf_header(data) {
        Err(e) => return Err(e),
        Ok(h) => h,
    };
    let phdrs = match parse_program_headers(data, &header) {
        Err(e) => return Err(e),
        Ok(p) => p,
    };
    let mut segments: Vec<LoadedSegment> = Vec::new();
    let mut has_loadable = false;
    let mut i: usize = 0;
    while i < phdrs.len()
        invariant
            i <= phdrs@.len(),
            header_error(data@) is None,
            phdr_table_in_bounds(data@, le64(data@, 32), le16(data@, 54), le16(data@, 56)),
            phdrs@ == phdrs_at(data@, le64(data@, 32), le16(data@, 54), le16(data@, 56)),
            collect_segments(phdrs@, i as int) == Ok::<Seq<LoadedSegment>, ElfError>(segments@),
            has_loadable == (segments@.len() > 0),
        decreases phdrs@.len() - i,
    {
        let phdr = &phdrs[i];
        if phdr.p_type == PT_LOAD {
            has_loadable = true;
            match validate_segment(phdr) {
                Err(e) => {
                    proof {
                        lemma_collect_err_sticks(phdrs@, i as int + 1, e);
                    }
                    return Err(e);
                },
                Ok(()) => {},
            }
            segments.push(
                LoadedSegment {
                    vaddr: phdr.p_vaddr,
                    memsz: phdr.p_memsz,
                    filesz: phdr.p_filesz,
                    file_offset: phdr.p_offset,
                    flags: phdr.p_flags,
                },
            );
        }
        i = i + 1;
    }
    if !has_loadable {
        return Err(ElfError::NoLoadableSegments);
    }
    let base_address: u64 = if header.e_type == ET_DYN {
        PIE_BASE
    } else {
        0
    };
    Ok(LoadedElf { entry_point: base_address + header.e_entry, base_address, segments })
}

/// Once the walk over the program headers fails, it keeps failing with the same error.
proof fn lemma_collect_err_sticks(ph: Seq<Elf64Phdr>, n: int, e: ElfError)
    requires
        0 <= n <= ph.len(),
        collect_segments(ph, n) == Err::<Seq<LoadedSegment>, ElfError>(e),
    ensures
        collect_segments(ph, ph.len() as int) == Err::<Seq<LoadedSegment>, ElfError>(e),
    decreases ph.len() - n,
{
    if n < ph.len() {
        assert(collect_segments(ph, n + 1) == Err::<Seq<LoadedSegment>, ElfError>(e));
        lemma_collect_err_sticks(ph, n + 1, e);
    }
}

/// Every segment the walk collects passed the load checks: it lies below the kernel
/// half and ends inside user space.
proof fn lemma_collected_in_user_space(ph: Seq<Elf64Phdr>, n: int)
    requires
        collect_segments(ph, n) is Ok,
    ensures
        forall|k: int|
            0 <= k < collect_segments(ph, n)->Ok_0.len() ==> {
                let seg = #[trigger] collect_segments(ph, n)->Ok_0[k];
                &&& seg.vaddr < KERNEL_SPACE_START
                &&& seg.vaddr + seg.memsz <= USER_SPACE_END
            },
    decreases n,
{
    if n <= 0 || n > ph.len() {
    } else {
        lemma_collected_in_user_space(ph, n - 1);
    }
}

/// A successfully loaded image has at least one segment, and every segment lies
/// inside user space: it starts below the kernel half and ends at or below
/// `USER_SPACE_END`.
pub proof fn lemma_loaded_segments_in_user_space(d: Seq<u8>)
    requires
        load_elf_spec(d) is Ok,
    ensures
        load_elf_spec(d)->Ok_0.1.len() > 0,
        forall|k: int|
            0 <= k < load_elf_spec(d)->Ok_0.1.len() ==> {
                let seg = #[trigger] load_elf_spec(d)->Ok_0.1[k];
                &&& seg.vaddr < KERNEL_SPACE_START
                &&& seg.vaddr + seg.memsz <= USER_SPACE_END
            },
{
    let ph = phdrs_at(d, le64(d, 32), le16(d, 54), le16(d, 56));
    lemma_collected_in_user_space(ph, ph.len() as int);
}

} // verus!
