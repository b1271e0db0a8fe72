use heartwood::loom_of_fate::elf_loader::{ElfError, LoadedSegment};
use heartwood::mana_pool::user_space::{
    copy_chunks, elf_error_text, merge_overlapping_segments, pages_for, plan_address_space_from_elf, CopyChunk,
    MemoryRegion, PageMapping, RegionType, SegmentCopy, UserAddressSpace, FLAG_NO_EXECUTE, USER_STACK_SIZE,
    USER_STACK_TOP,
};

fn seg(vaddr: u64, memsz: u64, flags: u32) -> LoadedSegment {
    LoadedSegment { vaddr, memsz, filesz: memsz, file_offset: 0, flags }
}

#[test]
fn region_flags_and_geometry() {
    let code = MemoryRegion::new(0x40_0000, 0x2000, RegionType::Code);
    assert_eq!(code.flags, 0x5);
    let data = MemoryRegion::new(0x40_2000, 0x1000, RegionType::Data);
    assert_eq!(data.flags, 0x7 | FLAG_NO_EXECUTE);
    assert_eq!(MemoryRegion::new(0, 1, RegionType::ReadOnlyData).flags, 0x5 | FLAG_NO_EXECUTE);
    assert_eq!(code.end(), 0x40_2000);
    assert!(code.contains(0x40_1FFF));
    assert!(!code.contains(0x40_2000));
    assert!(!code.overlaps(&data));
    assert!(code.overlaps(&MemoryRegion::new(0x40_1000, 0x10, RegionType::Heap)));
    assert_eq!(pages_for(1), 1);
    assert_eq!(pages_for(0x1000), 1);
    assert_eq!(pages_for(0x1001), 2);
}

#[test]
fn address_space_regions() {
    let mut space = UserAddressSpace::new(0x1234_0000);
    assert_eq!(space.pml4_phys(), 0x1234_0000);
    assert_eq!(space.heap_break(), 0x40_0000);
    let code = MemoryRegion::new(0x40_0000, 0x2000, RegionType::Code);
    assert!(space.add_region(code).is_ok());
    assert!(space.add_region(MemoryRegion::new(0x40_1000, 0x1000, RegionType::Data)).is_err());
    assert!(space.add_region(MemoryRegion::new(0x40_2000, 0x1000, RegionType::Data)).is_ok());
    assert_eq!(space.find_region(0x40_2800).unwrap().region_type, RegionType::Data);
    assert!(space.find_region(0x50_0000).is_none());
    let stack = space.allocate_stack(USER_STACK_SIZE).unwrap();
    assert_eq!(stack.start, USER_STACK_TOP - USER_STACK_SIZE);
    assert_eq!(stack.start + stack.size, USER_STACK_TOP);
    assert_eq!(stack.region_type, RegionType::Stack);
    let second = space.allocate_stack(100).unwrap();
    assert_eq!(second.size, 0x1000);
    assert_eq!(second.start + second.size, USER_STACK_TOP - USER_STACK_SIZE - 0x1_0000);
    assert_eq!(space.regions().len(), 4);
}

#[test]
fn elf_segments_merge_by_page() {
    let segs = [
        seg(0x40_2100, 0x100, 6),  // data, rw
        seg(0x40_0000, 0x1100, 5), // code, rx, pages 0x400000-0x402000
        seg(0x40_1800, 0x100, 4),  // read-only, shares the code's last page
        seg(0x50_0000, 0x10, 4),   // read-only, alone
    ];
    let merged = merge_overlapping_segments(&segs);
    assert_eq!(merged.len(), 3);
    assert_eq!(merged[0].page_aligned_start, 0x40_0000);
    assert_eq!(merged[0].aligned_size, 0x2000);
    assert_eq!(merged[0].region_type, RegionType::Code);
    assert_eq!(merged[0].contributing_segments, vec![1, 2]);
    assert_eq!(merged[1].page_aligned_start, 0x40_2000);
    assert_eq!(merged[1].aligned_size, 0x1000);
    assert_eq!(merged[1].region_type, RegionType::Data);
    assert_eq!(merged[1].contributing_segments, vec![0]);
    assert_eq!(merged[2].page_aligned_start, 0x50_0000);
    assert_eq!(merged[2].region_type, RegionType::ReadOnlyData);
}

#[test]
fn writable_segment_turns_region_into_data() {
    let segs = [seg(0x40_0000, 0x800, 5), seg(0x40_0800, 0x1000, 6)];
    let merged = merge_overlapping_segments(&segs);
    assert_eq!(merged.len(), 1);
    assert_eq!(merged[0].aligned_size, 0x2000);
    assert_eq!(merged[0].region_type, RegionType::Data);
    assert!(merge_overlapping_segments(&[]).is_empty());
}

fn elf_header(entry: u64, phnum: u16) -> Vec<u8> {
    let mut data = vec![0u8; 64];
    data[0..4].copy_from_slice(&[0x7f, b'E', b'L', b'F']);
    data[4] = 2;
    data[5] = 1;
    data[6] = 1;
    data[16..18].copy_from_slice(&2u16.to_le_bytes());
    data[18..20].copy_from_slice(&62u16.to_le_bytes());
    data[20..24].copy_from_slice(&1u32.to_le_bytes());
    data[24..32].copy_from_slice(&entry.to_le_bytes());
    data[32..40].copy_from_slice(&64u64.to_le_bytes());
    data[54..56].copy_from_slice(&56u16.to_le_bytes());
    data[56..58].copy_from_slice(&phnum.to_le_bytes());
    data
}

fn load_header(flags: u32, offset: u64, vaddr: u64, filesz: u64, memsz: u64) -> Vec<u8> {
    let mut v = Vec::new();
    v.extend_from_slice(&1u32.to_le_bytes());
    v.extend_from_slice(&flags.to_le_bytes());
    v.extend_from_slice(&offset.to_le_bytes());
    v.extend_from_slice(&vaddr.to_le_bytes());
    v.extend_from_slice(&vaddr.to_le_bytes());
    v.extend_from_slice(&filesz.to_le_bytes());
    v.extend_from_slice(&memsz.to_le_bytes());
    v.extend_from_slice(&0x1000u64.to_le_bytes());
    v
}

#[test]
fn address_space_plan_merges_and_copies() {
    let mut d = elf_header(0x40_0010, 3);
    d.extend_from_slice(&load_header(5, 0, 0x40_0000, 0x100, 0x1800));
    d.extend_from_slice(&load_header(6, 0x200, 0x40_1800, 0x20, 0x900));
    d.extend_from_slice(&load_header(4, 0x1_0000, 0x60_0000, 0x10, 0x10));
    d.resize(0x300, 0);
    let b = plan_address_space_from_elf(&d, 0x9000).unwrap();
    assert_eq!(b.entry_point, 0x40_0010);
    assert_eq!(b.space.pml4_phys(), 0x9000);
    assert_eq!(b.regions.len(), 2);
    assert_eq!(b.regions[0].region, MemoryRegion::new(0x40_0000, 0x3000, RegionType::Data));
    assert_eq!(b.regions[0].pages, 3);
    assert_eq!(
        b.regions[0].copies,
        vec![
            SegmentCopy { file_start: 0, file_end: 0x100, region_offset: 0 },
            SegmentCopy { file_start: 0x200, file_end: 0x220, region_offset: 0x1800 },
        ]
    );
    assert_eq!(b.regions[1].region, MemoryRegion::new(0x60_0000, 0x1000, RegionType::ReadOnlyData));
    assert!(b.regions[1].copies.is_empty());
    assert_eq!(b.stack, MemoryRegion::new(USER_STACK_TOP - USER_STACK_SIZE, USER_STACK_SIZE, RegionType::Stack));
    let regions: Vec<MemoryRegion> = b.space.regions().to_vec();
    assert_eq!(regions, vec![b.regions[0].region, b.regions[1].region, b.stack]);
}

#[test]
fn address_space_plan_errors() {
    let mut bad = elf_header(0, 1);
    bad[0] = 0;
    assert_eq!(plan_address_space_from_elf(&bad, 0).err(), Some("Invalid ELF magic"));
    let mut d = elf_header(0, 1);
    d.extend_from_slice(&load_header(6, 0, USER_STACK_TOP - 0x1000, 0, 0x100));
    assert_eq!(plan_address_space_from_elf(&d, 0).err(), Some("Region overlaps with existing region"));
}

#[test]
fn elf_error_texts() {
    assert_eq!(elf_error_text(ElfError::NoLoadableSegments), "No loadable segments");
    assert_eq!(elf_error_text(ElfError::InvalidType), "Not an executable");
}

#[test]
fn map_region_lists_pages() {
    let space = UserAddressSpace::new(0x5000);
    let region = MemoryRegion::new(0x40_0000, 0x2800, RegionType::Data);
    assert_eq!(space.map_region(&region, &[0x1000, 0x2000]).err(), Some("Not enough physical frames for region"));
    let pages = space.map_region(&region, &[0x1000, 0x2000, 0x3000, 0x4000]).unwrap();
    assert_eq!(pages.len(), 3);
    assert_eq!(pages[0], PageMapping { pml4_phys: 0x5000, virt: 0x40_0000, phys: 0x1000, flags: region.flags });
    assert_eq!(pages[2], PageMapping { pml4_phys: 0x5000, virt: 0x40_2000, phys: 0x3000, flags: region.flags });
}

#[test]
fn copy_chunks_fill_frames_in_turn() {
    assert_eq!(
        copy_chunks(3, 0x1900, 0x800),
        vec![
            CopyChunk { frame: 0, frame_offset: 0x800, data_start: 0, len: 0x800 },
            CopyChunk { frame: 1, frame_offset: 0, data_start: 0x800, len: 0x1000 },
            CopyChunk { frame: 2, frame_offset: 0, data_start: 0x1800, len: 0x100 },
        ]
    );
    // Too few frames: the copy stops when they run out.
    assert_eq!(copy_chunks(1, 0x1900, 0x800), vec![CopyChunk { frame: 0, frame_offset: 0x800, data_start: 0, len: 0x800 }]);
    assert!(copy_chunks(0, 0x10, 0).is_empty());
    assert!(copy_chunks(2, 0, 0).is_empty());
}
