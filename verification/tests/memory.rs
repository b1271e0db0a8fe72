use heartwood::mana_pool::allocator::BuddyAllocator as HeapAllocator;
use heartwood::mana_pool::bump_allocator::BumpAllocator;
use heartwood::mana_pool::entropy::ChaCha8Rng;
use heartwood::mana_pool::heap_canaries::{
    are_enabled, generate_canary, get_canary_secret, init, verify_canaries, violations_count, CanaryState,
};
use heartwood::mana_pool::kernel_sections::{bss_size, kernel_size};
use heartwood::mana_pool::page_tables::{
    check_user_mapping, huge_page_check, huge_page_walk_step, leaf_entry, new_pml4_entries, next_readonly_address,
    page_table_index, phys_to_virt, table_entry, upper_level_step,
    virt_to_phys, MapStep,
    PageFlag, PageTable, PageTableEntry,
};
use heartwood::mana_pool::rune_of_permanence::{
    check_rune_seal, get_rune_page_count, get_rune_size, verify_rune_section, SealRefusal,
};
use heartwood::mana_pool::sanctuary::{Sanctuary, SANCTUARY_BASE, SANCTUARY_SIZE};
use heartwood::mana_pool::ManaError;
use heartwood::stack_protection::{get_current_canary, set_current_canary, StackGuard};

#[test]
fn test_canary_get_set() {
    let mut guard = StackGuard::new();
    set_current_canary(&mut guard, 0x1234567890ABCDEF);
    assert_eq!(get_current_canary(&guard), 0x1234567890ABCDEF);
    set_current_canary(&mut guard, 0xFEDCBA0987654321);
    assert_eq!(get_current_canary(&guard), 0xFEDCBA0987654321);
}

#[test]
fn test_canary_default() {
    let guard = StackGuard::new();
    let default = get_current_canary(&guard);
    assert_ne!(default, 0, "Canary should have non-zero default");
}

#[test]
fn sanctuary_bump_allocation() {
    let mut s = Sanctuary::new();
    assert_eq!(s.total_bytes(), SANCTUARY_SIZE);
    assert_eq!(s.allocate(100), Ok(SANCTUARY_BASE));
    assert_eq!(s.allocate(28), Ok(SANCTUARY_BASE + 100));
    assert_eq!(s.used_bytes(), 128);
    assert_eq!(s.allocate(SANCTUARY_SIZE), Err(ManaError::OutOfMemory));
    assert_eq!(s.used_bytes(), 128);
    assert_eq!(s.allocate(SANCTUARY_SIZE - 128), Ok(SANCTUARY_BASE + 128));
    assert_eq!(s.allocate(1), Err(ManaError::OutOfMemory));
}

#[test]
fn bump_allocator_aligns_and_fails_at_end() {
    let mut b = BumpAllocator::new();
    b.init(0x1000, 0x100);
    assert_eq!(b.allocate(3, 1), 0x1000);
    assert_eq!(b.allocate(8, 16), 0x1010);
    assert_eq!(b.allocate(0xE0, 8), 0x1018);
    assert_eq!(b.allocate(9, 8), 0);
    assert_eq!(b.allocate(8, 8), 0x10F8);
    assert_eq!(b.allocate(1, 1), 0);
}

#[test]
fn heap_canaries_detect_corruption() {
    let mut state = CanaryState::new();
    assert!(!are_enabled(&state));
    assert!(verify_canaries(&mut state, 0x5000, 1, 2));
    let mut rng = ChaCha8Rng::from_seed(7);
    init(&mut state, &mut rng);
    assert!(are_enabled(&state));
    let secret = get_canary_secret(&state);
    let c = generate_canary(&state, 0x5000);
    assert_eq!(c, secret ^ 0x5000);
    assert!(verify_canaries(&mut state, 0x5000, c, c));
    assert_eq!(violations_count(&state), 0);
    assert!(!verify_canaries(&mut state, 0x5000, c, c ^ 1));
    assert!(!verify_canaries(&mut state, 0x5000, c ^ 1, c));
    assert_eq!(violations_count(&state), 2);
}

#[test]
fn heap_canary_secret_from_rng() {
    let mut state = CanaryState::new();
    let mut rng = ChaCha8Rng::from_seed(7);
    let mut same = ChaCha8Rng::from_seed(7);
    init(&mut state, &mut rng);
    let hi = same.next_u32() as u64;
    let lo = same.next_u32() as u64;
    assert_eq!(get_canary_secret(&state), (hi << 32) | lo);
}

#[test]
fn page_table_entry_bits() {
    let mut e = PageTableEntry::from_raw(0x8000_0000_0012_3003);
    assert!(e.is_present());
    assert!(e.is_writable());
    assert!(!e.is_huge());
    assert_eq!(e.address(), 0x0000_0000_0012_3000);
    e.set_writable(false);
    assert!(!e.is_writable());
    assert_eq!(e.raw(), 0x8000_0000_0012_3001);
    e.set_writable(true);
    assert_eq!(e.raw(), 0x8000_0000_0012_3003);
    e.set_raw(0x80);
    assert!(e.is_huge());
    assert_eq!(PageFlag::Global.bits(), 0x100);
    assert_eq!(PageFlag::HugePage.bits(), 0x80);
}

#[test]
fn page_table_entries_and_indices() {
    let mut t = PageTable::new();
    assert_eq!(t.entry(511).raw(), 0);
    t.entry_mut(3).set_raw(0x1003);
    assert_eq!(t.entry(3).raw(), 0x1003);
    let addr: u64 = (5 << 39) | (6 << 30) | (7 << 21) | (8 << 12) | 0x123;
    assert_eq!(page_table_index(addr, 4), 5);
    assert_eq!(page_table_index(addr, 3), 6);
    assert_eq!(page_table_index(addr, 2), 7);
    assert_eq!(page_table_index(addr, 1), 8);
    assert_eq!(virt_to_phys(0xFFFF_FFFF_8000_1000), 0x1000);
    assert_eq!(virt_to_phys(0x1000), 0x1000);
    assert_eq!(phys_to_virt(0x1000), 0xFFFF_FFFF_8000_1000);
}

#[test]
fn rune_and_section_sizes() {
    assert_eq!(get_rune_size(0x10_0000, 0x10_2001), 0x2001);
    assert_eq!(get_rune_page_count(0x10_0000, 0x10_2001), 3);
    assert_eq!(get_rune_page_count(0x10_0000, 0x10_2000), 2);
    assert!(verify_rune_section(0x10_0000, 0x10_2000, 0x10_0010, 0xDEAD_BEEF));
    assert!(!verify_rune_section(0x10_0001, 0x10_2000, 0x10_0010, 0xDEAD_BEEF));
    assert!(!verify_rune_section(0x10_0000, 0x10_2000, 0x20_0000, 0xDEAD_BEEF));
    assert!(!verify_rune_section(0x10_0000, 0x10_2000, 0x10_0010, 0));
    assert_eq!(kernel_size(0x1000, 0x5000), 0x4000);
    assert_eq!(bss_size(0x3000, 0x3800), 0x800);
}

#[test]
fn heap_allocator_serves_layouts() {
    let mut a = HeapAllocator::new();
    a.init(0x10_0000, 0x1_0000);
    let stats = a.stats();
    assert_eq!(stats.total_bytes, 0x1_0000);
    assert_eq!(stats.free_bytes, 0x1_0000);
    let p = a.allocate_layout(24, 8);
    assert_ne!(p, 0);
    assert_eq!(p % 8, 0);
    assert_eq!(a.stats().used_bytes, 64);
    a.deallocate_layout(p, 24, 8);
    assert_eq!(a.stats().free_bytes, 0x1_0000);
    assert_eq!(a.allocate_layout(0x2_0000, 8), 0);
}

#[test]
fn user_mapping_checks() {
    assert_eq!(check_user_mapping(0x40_0000, 0x20_0000), Ok(()));
    assert_eq!(check_user_mapping(0xFFFF_8000_0000_0000, 0), Err("Virtual address is in kernel space"));
    assert_eq!(check_user_mapping(0x40_0010, 0), Err("Virtual address not page-aligned"));
    assert_eq!(check_user_mapping(0x40_0000, 0x123), Err("Physical address not page-aligned"));
}

#[test]
fn mapping_walk_steps() {
    assert_eq!(upper_level_step(4, PageTableEntry::from_raw(0)), MapStep::NewTable);
    assert_eq!(upper_level_step(4, PageTableEntry::from_raw(0x5000 | 0x87)), MapStep::Descend(0x5000));
    assert_eq!(
        upper_level_step(3, PageTableEntry::from_raw(0x4000_0000 | 0x83)),
        MapStep::Refuse("1GB huge page already mapped at this address")
    );
    assert_eq!(
        upper_level_step(2, PageTableEntry::from_raw(0x20_0000 | 0x83)),
        MapStep::Refuse("2MB huge page already mapped at this address")
    );
    assert_eq!(upper_level_step(2, PageTableEntry::from_raw(0x7000 | 0x7)), MapStep::Descend(0x7000));
    assert_eq!(table_entry(0x9000).raw(), 0x9007);
    assert_eq!(table_entry(0x9000).address(), 0x9000);
    assert!(table_entry(0x9000).is_present() && !table_entry(0x9000).is_huge());
    let leaf = leaf_entry(PageTableEntry::from_raw(0), 0x7_0000, 0x8000_0000_0000_0007).unwrap();
    assert_eq!(leaf.address(), 0x7_0000);
    assert!(leaf.is_present());
    assert_eq!(leaf_entry(PageTableEntry::from_raw(0), 0x3000, 0x5).unwrap().raw(), 0x3005);
    assert_eq!(leaf_entry(PageTableEntry::from_raw(0x3005), 0x4000, 0x5).err(), Some("Page already mapped"));
}

#[test]
fn new_top_level_table_entries() {
    let (top, recursive) = new_pml4_entries(PageTableEntry::from_raw(0x8000_0003), 0x5000);
    assert_eq!(top, Some(PageTableEntry::from_raw(0x8000_0003)));
    assert_eq!(recursive.raw(), 0x5003);
    let (top, _) = new_pml4_entries(PageTableEntry::from_raw(0x8000_0000), 0x5000);
    assert_eq!(top, None);
}

#[test]
fn present_entries_become_writable() {
    let mut t = PageTable::new();
    t.entry_mut(0).set_raw(0x1000 | 1);
    t.entry_mut(1).set_raw(0x2000);
    t.entry_mut(511).set_raw(0x3000 | 3);
    t.make_present_writable();
    assert_eq!(t.entry(0).raw(), 0x1003);
    assert_eq!(t.entry(1).raw(), 0x2000);
    assert_eq!(t.entry(511).raw(), 0x3003);
    assert_eq!(t.entry(7).raw(), 0);
}

#[test]
fn huge_page_walk_and_sealing_steps() {
    assert_eq!(huge_page_walk_step(4, PageTableEntry::from_raw(0)).err(), Some("PML4 entry not present"));
    assert_eq!(huge_page_walk_step(3, PageTableEntry::from_raw(0)).err(), Some("PDPT entry not present"));
    assert_eq!(huge_page_walk_step(3, PageTableEntry::from_raw(0x4000_0083)).err(), Some("1GB huge pages not supported"));
    assert_eq!(huge_page_walk_step(4, PageTableEntry::from_raw(0x6003)), Ok(0x6000));
    assert_eq!(huge_page_check(PageTableEntry::from_raw(0)).err(), Some("PD entry not present"));
    assert_eq!(huge_page_check(PageTableEntry::from_raw(0x6003)).err(), Some("Not a huge page"));
    assert_eq!(huge_page_check(PageTableEntry::from_raw(0x20_0083)), Ok(()));
    assert_eq!(next_readonly_address(0x40_1000, false), 0x40_2000);
    assert_eq!(next_readonly_address(0x40_1000, true), 0x60_0000);
}

#[test]
fn rune_seal_checks() {
    assert_eq!(check_rune_seal(false, 0x1000, 0x3000), Ok(()));
    assert_eq!(check_rune_seal(true, 0x1000, 0x3000), Err(SealRefusal::AlreadySealed));
    assert_eq!(check_rune_seal(false, 0x3000, 0x3000), Err(SealRefusal::EmptySection));
    assert_eq!(check_rune_seal(false, 0x1010, 0x3000), Err(SealRefusal::UnalignedStart));
}
