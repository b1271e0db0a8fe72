use heartwood::attunement::gdt::{GdtEntry, GlobalDescriptorTable, TaskStateSegment};
use heartwood::attunement::per_cpu::PerCpuData;
use heartwood::attunement::timer::{on_tick, tick, ticks, TickCounter};
use heartwood::attunement::ward_of_anonymity::{can_access_symbols, format_function_name, redact_string, PrivilegeLevel};
use heartwood::attunement::ward_of_sacred_boundaries::{is_mortal_pointer, validate_mortal_pointer, WardError};
use heartwood::attunement::ward_of_unseen_paths::{
    get_entropy_range_mb, kaslr_offset_from_entropy, Kaslr, KASLR_ALIGNMENT, KERNEL_BASE_DEFAULT,
    MAX_KASLR_OFFSET,
};

#[test]
fn test_per_cpu_data_creation() {
    let data = PerCpuData::new(0, 0x1000);
    assert_eq!(data.cpu_id, 0);
    assert_eq!(data.kernel_stack_top, 0x1000);
    assert_eq!(data.user_stack_saved, 0);
    assert!(data.current_thread_id.is_none());
}

#[test]
fn test_mortal_pointer_validation() {
    assert!(is_mortal_pointer(0x1000));
    assert!(is_mortal_pointer(0x0000_7FFF_0000_0000));
    assert!(!is_mortal_pointer(0xFFFF_8000_0000_0000));
    assert!(!is_mortal_pointer(0xFFFF_FFFF_FFFF_FFFF));
    assert!(!is_mortal_pointer(0));
}

#[test]
fn test_region_validation() {
    assert!(validate_mortal_pointer(0x1000, 4096).is_ok());
    assert!(validate_mortal_pointer(0x0000_7FFF_FFFF_F000, 0x2000).is_err());
    assert!(validate_mortal_pointer(0, 4096).is_err());
    assert!(validate_mortal_pointer(0xFFFF_8000_0000_0000, 4096).is_err());
}

#[test]
fn region_validation_error_kinds() {
    assert_eq!(validate_mortal_pointer(0, 16), Err(WardError::NullPointer));
    assert_eq!(validate_mortal_pointer(0xFFFF_8000_0000_0000, 16), Err(WardError::PointerInKernelSpace));
    assert_eq!(validate_mortal_pointer(0x0000_7FFF_FFFF_F000, 0x2000), Err(WardError::RegionOverflow));
    // A region ending exactly at the top of user space lies in user space.
    assert_eq!(validate_mortal_pointer(0x0000_7FFF_FFFF_F000, 0x1000), Ok(()));
    assert_eq!(validate_mortal_pointer(0x0000_7FFF_FFFF_F000, 0x1001), Err(WardError::RegionOverflow));
}

#[test]
fn test_privilege_levels() {
    let enabled = true;
    assert!(can_access_symbols(PrivilegeLevel::Kernel, enabled));
    assert!(!can_access_symbols(PrivilegeLevel::Privileged, enabled));
    assert!(!can_access_symbols(PrivilegeLevel::Unprivileged, enabled));
}

#[test]
fn test_anonymity_toggle() {
    let mut enabled = false;
    assert!(!enabled);
    assert!(can_access_symbols(PrivilegeLevel::Unprivileged, enabled));
    enabled = true;
    assert!(enabled);
    assert!(!can_access_symbols(PrivilegeLevel::Unprivileged, enabled));
}

#[test]
fn test_function_name_hiding() {
    let name = "schedule";
    assert_eq!(format_function_name(name, PrivilegeLevel::Kernel, true), "schedule");
    assert_eq!(format_function_name(name, PrivilegeLevel::Unprivileged, true), "<hidden>");
}

#[test]
fn test_entropy_generation() {
    let offset1 = kaslr_offset_from_entropy(0x1234_5678_9ABC_DEF0);
    let offset2 = kaslr_offset_from_entropy(0x0FED_CBA9_8765_4321);
    assert_eq!(offset1 % KASLR_ALIGNMENT, 0);
    assert_eq!(offset2 % KASLR_ALIGNMENT, 0);
    assert!(offset1 < MAX_KASLR_OFFSET);
    assert!(offset2 < MAX_KASLR_OFFSET);
}

#[test]
fn kaslr_offset_moves_the_kernel() {
    fn mixed(e: u64) -> u64 {
        let e = e ^ (e >> 17);
        let e = e ^ (e << 31);
        e ^ (e >> 8)
    }
    assert_eq!(kaslr_offset_from_entropy(0), 0);
    let mut nonzero = 0;
    for e in [1u64, 0x0100_0000, 0x1234_5678_9ABC_DEF0, 0xFFFF_FFFF_FFFF_FFFF, 0x0FED_CBA9_8765_4321] {
        let r = kaslr_offset_from_entropy(e);
        assert_eq!(r, mixed(e) & 0x0F00_0000);
        assert_eq!(r % KASLR_ALIGNMENT, 0);
        assert!(r < MAX_KASLR_OFFSET);
        if r != 0 {
            nonzero += 1;
        }
    }
    assert!(nonzero > 0);
    assert_eq!(get_entropy_range_mb(), 256);
}

#[test]
fn test_kaslr_offset_math() {
    let test_offset = 64 * 1024 * 1024;
    let kaslr = Kaslr::with_offset(test_offset);
    assert_eq!(kaslr.get_kernel_base(), KERNEL_BASE_DEFAULT + test_offset);
    let test_addr = KERNEL_BASE_DEFAULT + 0x1000;
    let actual_addr = kaslr.apply_kaslr_offset(test_addr);
    assert_eq!(actual_addr, test_addr + test_offset);
    let recovered = kaslr.remove_kaslr_offset(actual_addr);
    assert_eq!(recovered, test_addr);
}

#[test]
fn kaslr_disabled_leaves_addresses() {
    let kaslr = Kaslr::new();
    assert!(!kaslr.is_kaslr_enabled());
    assert_eq!(kaslr.get_entropy_bits(), 0);
    assert_eq!(kaslr.apply_kaslr_offset(KERNEL_BASE_DEFAULT + 5), KERNEL_BASE_DEFAULT + 5);
    assert_eq!(kaslr.remove_kaslr_offset(KERNEL_BASE_DEFAULT + 5), KERNEL_BASE_DEFAULT + 5);
}

#[test]
fn timer_counts_ticks() {
    let mut counter = TickCounter::new();
    assert_eq!(ticks(&counter), 0);
    tick(&mut counter);
    on_tick(&mut counter);
    assert_eq!(ticks(&counter), 2);
}

#[test]
fn gdt_layout_after_initialize() {
    let mut gdt = GlobalDescriptorTable::new();
    gdt.initialize(0x1234_5678_9ABC);
    assert_eq!(gdt.len(), 9);
    assert_eq!(gdt.entry(0), GdtEntry::null());
    assert_eq!(gdt.entry(1), GdtEntry::kernel_code());
    assert_eq!(gdt.entry(2), GdtEntry::kernel_data());
    let tss = TaskStateSegment::new();
    assert_eq!(tss.iomap_base, 104);
}

#[test]
fn ward_error_messages() {
    assert_eq!(WardError::NullPointer.message(), "Mortal offers void as truth");
    assert_eq!(WardError::PointerInKernelSpace.message(), "Mortal pointer trespasses in sacred realm");
    assert_eq!(WardError::RegionOverflow.message(), "Mortal's scroll breaches the boundary");
    assert_eq!(WardError::UnsupportedCpu.message(), "The ancient stones lack the Ward's wisdom");
    assert_eq!(WardError::CopyFailed.message(), "Sanctification ritual failed");
    assert_eq!(validate_mortal_pointer(0, 8).unwrap_err().message(), "Mortal offers void as truth");
}

#[test]
fn redaction_hides_function_names() {
    let msg = "panic in schedule() at line 42";
    assert_eq!(redact_string(msg, PrivilegeLevel::Kernel, true), msg);
    assert_eq!(redact_string(msg, PrivilegeLevel::Unprivileged, true), "panic in <hidden> at line 42");
    assert_eq!(redact_string(msg, PrivilegeLevel::Unprivileged, false), msg);
    assert_eq!(redact_string("a() b_2() c (d)", PrivilegeLevel::Privileged, true), "<hidden> <hidden> c (d)");
    assert_eq!(redact_string("", PrivilegeLevel::Unprivileged, true), "");
}

#[test]
fn descriptors_pack_as_the_cpu_reads_them() {
    assert_eq!(GdtEntry::kernel_code().to_bits(), 0x00AF_9A00_0000_FFFF);
    assert_eq!(GdtEntry::null().to_bits(), 0);
    let tss = GdtEntry::tss(0x1234_5678_9ABC_DEF0);
    assert_eq!(tss[0].to_bits(), 0x9A00_89BC_DEF0_0067);
    assert_eq!(tss[1].to_bits(), 0x1234_5678);
}
