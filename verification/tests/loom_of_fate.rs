use heartwood::loom_of_fate::context::ThreadContext;
use heartwood::loom_of_fate::elf_loader::{
    load_elf, parse_elf_header, parse_program_headers, ElfError, LoadedSegment, EHDR_SIZE, PIE_BASE,
};

#[test]
fn test_context_creation() {
    let ctx = ThreadContext::new(0x1000, 0x5000);
    assert_eq!(ctx.rip, 0x1000);
    assert_eq!(ctx.rsp, 0x5000);
    assert_eq!(ctx.cs, 0x08);
    assert_eq!(ctx.ss, 0x10);
    assert_ne!(ctx.rflags & 0x200, 0);
}

#[test]
fn test_empty_context() {
    let ctx = ThreadContext::empty();
    assert_eq!(ctx.rip, 0);
    assert_eq!(ctx.rsp, 0);
    assert_eq!(ctx.rax, 0);
}

/// A minimal valid ELF header of the given type, entry and program header table.
fn header_bytes(e_type: u16, entry: u64, phoff: u64, phnum: u16) -> Vec<u8> {
    let mut data = vec![0u8; EHDR_SIZE];
    data[0..4].copy_from_slice(&[0x7f, b'E', b'L', b'F']);
    data[4] = 2;
    data[5] = 1;
    data[6] = 1;
    data[16..18].copy_from_slice(&e_type.to_le_bytes());
    data[18..20].copy_from_slice(&62u16.to_le_bytes());
    data[20..24].copy_from_slice(&1u32.to_le_bytes());
    data[24..32].copy_from_slice(&entry.to_le_bytes());
    data[32..40].copy_from_slice(&phoff.to_le_bytes());
    data[54..56].copy_from_slice(&56u16.to_le_bytes());
    data[56..58].copy_from_slice(&phnum.to_le_bytes());
    data
}

/// A program header.
fn phdr_bytes(p_type: u32, flags: u32, offset: u64, vaddr: u64, filesz: u64, memsz: u64, align: u64) -> Vec<u8> {
    let mut v = Vec::new();
    v.extend_from_slice(&p_type.to_le_bytes());
    v.extend_from_slice(&flags.to_le_bytes());
    v.extend_from_slice(&offset.to_le_bytes());
    v.extend_from_slice(&vaddr.to_le_bytes());
    v.extend_from_slice(&vaddr.to_le_bytes());
    v.extend_from_slice(&filesz.to_le_bytes());
    v.extend_from_slice(&memsz.to_le_bytes());
    v.extend_from_slice(&align.to_le_bytes());
    v
}

#[test]
fn test_elf_header_validation() {
    let mut data = [0u8; 64];
    data[0..4].copy_from_slice(&[0x7f, b'E', b'L', b'F']);
    data[4] = 2;
    data[5] = 1;
    data[6] = 1;
    data[16..18].copy_from_slice(&2u16.to_le_bytes());
    data[18..20].copy_from_slice(&62u16.to_le_bytes());
    data[20..24].copy_from_slice(&1u32.to_le_bytes());
    let result = parse_elf_header(&data);
    assert!(result.is_ok());
}

#[test]
fn test_invalid_magic() {
    let data = [0u8; 64];
    let result = parse_elf_header(&data);
    assert_eq!(result, Err(ElfError::InvalidMagic));
}

#[test]
fn elf_header_errors_in_order() {
    assert_eq!(parse_elf_header(&[0u8; 10]), Err(ElfError::FileTooSmall));
    let good = header_bytes(2, 0x1000, 64, 0);
    let mut d = good.clone();
    d[4] = 1;
    assert_eq!(parse_elf_header(&d), Err(ElfError::InvalidClass));
    let mut d = good.clone();
    d[5] = 2;
    assert_eq!(parse_elf_header(&d), Err(ElfError::InvalidEndianness));
    let mut d = good.clone();
    d[20] = 2;
    assert_eq!(parse_elf_header(&d), Err(ElfError::InvalidVersion));
    let mut d = good.clone();
    d[16] = 1;
    assert_eq!(parse_elf_header(&d), Err(ElfError::InvalidType));
    let mut d = good.clone();
    d[18] = 3;
    assert_eq!(parse_elf_header(&d), Err(ElfError::InvalidMachine));
}

#[test]
fn elf_header_fields_little_endian() {
    let d = header_bytes(3, 0x0123_4567_89AB_CDEF, 0x40, 2);
    let h = parse_elf_header(&d).unwrap();
    assert_eq!(h.e_type, 3);
    assert_eq!(h.e_machine, 62);
    assert_eq!(h.e_entry, 0x0123_4567_89AB_CDEF);
    assert_eq!(h.e_phoff, 0x40);
    assert_eq!(h.e_phentsize, 56);
    assert_eq!(h.e_phnum, 2);
    assert_eq!(&h.e_ident[0..4], &[0x7f, b'E', b'L', b'F']);
}

#[test]
fn program_headers_bounds() {
    let mut d = header_bytes(2, 0x1000, 64, 1);
    let h = parse_elf_header(&d).unwrap();
    assert_eq!(parse_program_headers(&d, &h), Err(ElfError::ProgramHeaderOutOfBounds));
    d.extend_from_slice(&phdr_bytes(1, 5, 0, 0x40_0000, 0x100, 0x200, 0x1000));
    let v = parse_program_headers(&d, &h).unwrap();
    assert_eq!(v.len(), 1);
    assert_eq!(v[0].p_type, 1);
    assert_eq!(v[0].p_vaddr, 0x40_0000);
    assert_eq!(v[0].p_memsz, 0x200);
}

#[test]
fn load_elf_collects_loadable_segments() {
    let mut d = header_bytes(2, 0x40_1000, 64, 2);
    d.extend_from_slice(&phdr_bytes(1, 5, 0, 0x40_0000, 0x100, 0x200, 0x1000));
    d.extend_from_slice(&phdr_bytes(4, 4, 0, 0, 0, 0, 0));
    let l = load_elf(&d).unwrap();
    assert_eq!(l.base_address, 0);
    assert_eq!(l.entry_point, 0x40_1000);
    assert_eq!(l.segments.len(), 1);
    assert_eq!(
        l.segments[0],
        LoadedSegment { vaddr: 0x40_0000, memsz: 0x200, filesz: 0x100, file_offset: 0, flags: 5 }
    );
    assert!(l.segments[0].is_readable());
    assert!(!l.segments[0].is_writable());
    assert!(l.segments[0].is_executable());
}

#[test]
fn load_elf_pie_base_and_errors() {
    let mut d = header_bytes(3, 0x1000, 64, 1);
    d.extend_from_slice(&phdr_bytes(1, 6, 0, 0x1000, 0x10, 0x10, 0));
    let l = load_elf(&d).unwrap();
    assert_eq!(l.base_address, PIE_BASE);
    assert_eq!(l.entry_point, PIE_BASE + 0x1000);

    let mut d = header_bytes(2, 0, 64, 1);
    d.extend_from_slice(&phdr_bytes(4, 4, 0, 0, 0, 0, 0));
    assert!(matches!(load_elf(&d), Err(ElfError::NoLoadableSegments)));

    let mut d = header_bytes(2, 0, 64, 1);
    d.extend_from_slice(&phdr_bytes(1, 4, 0, 0x1000, 0, 0x10, 3));
    assert!(matches!(load_elf(&d), Err(ElfError::InvalidAlignment)));

    let mut d = header_bytes(2, 0, 64, 1);
    d.extend_from_slice(&phdr_bytes(1, 4, 0, 0xFFFF_8000_0000_0000, 0, 0x10, 0x1000));
    assert!(matches!(load_elf(&d), Err(ElfError::SegmentOverlapsKernel)));

    let mut d = header_bytes(2, 0, 64, 1);
    d.extend_from_slice(&phdr_bytes(1, 4, 0, 0x7FFF_FFFF_F000, 0, 0x2000, 0x1000));
    assert!(matches!(load_elf(&d), Err(ElfError::SegmentOverlapsKernel)));
}

#[test]
fn elf_error_messages() {
    assert_eq!(ElfError::InvalidMagic.message(), "Invalid ELF magic number");
    assert_eq!(ElfError::FileTooSmall.message(), "ELF file too small");
    assert_eq!(ElfError::NoLoadableSegments.message(), "No loadable segments");
    assert_eq!(parse_elf_header(&[0u8; 10]).unwrap_err().message(), "ELF file too small");
}
