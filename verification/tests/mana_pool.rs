use heartwood::mana_pool::aslr::{offset_from, AslrManager, RandomizedLayout};
use heartwood::mana_pool::buddy::BuddyAllocator;
use heartwood::mana_pool::capability::{CapabilityId, CapabilityRights, SealedCapability};
use heartwood::mana_pool::capability_table::{CapabilityError, CapabilityTable, MAX_CAPABILITIES};
use heartwood::mana_pool::elf_relocations::{kaslr_relocation_writes, Elf64Rela, RelocationType};
use heartwood::mana_pool::entropy::{range_from, ChaCha8Rng, HardwareRng};
use heartwood::mana_pool::object_manager::ObjectHandle;
use heartwood::mana_pool::sealing::{constant_time_compare, CapabilitySealer};

#[test]
fn test_randomized_layouts_differ() {
    let layout1 = RandomizedLayout::new();
    let layout2 = RandomizedLayout::new();
    assert_ne!(layout1.code_base, layout2.code_base);
    assert_ne!(layout1.stack_base, layout2.stack_base);
}

#[test]
fn test_code_base_in_valid_range() {
    let mut rng = ChaCha8Rng::from_seed(42);
    for _ in 0..100 {
        let layout = RandomizedLayout::from_rng(&mut rng);
        assert!(layout.code_base >= 0x00400000);
        assert!(layout.code_base < 0x01400000);
        assert_eq!(layout.code_base % 0x1000, 0);
    }
}

#[test]
fn test_stack_base_in_valid_range() {
    let mut rng = ChaCha8Rng::from_seed(42);
    for _ in 0..100 {
        let layout = RandomizedLayout::from_rng(&mut rng);
        assert!(layout.stack_base >= 0x70000000);
        assert!(layout.stack_base < 0x80000000);
        assert_eq!(layout.stack_base % 0x1000, 0);
    }
}

#[test]
fn test_deterministic_layout() {
    let layout = AslrManager::deterministic_layout();
    assert_eq!(layout.code_base, 0x00400000);
    assert_eq!(layout.stack_base, 0x70000000);
    assert_eq!(layout.entropy_bits, 0);
}

#[test]
fn test_aslr_manager_toggle() {
    let mut manager = AslrManager::new();
    assert!(manager.is_enabled());
    manager.set_enabled(false);
    assert!(!manager.is_enabled());
    let layout = manager.generate_layout();
    assert_eq!(layout.entropy_bits, 0);
}

#[test]
fn test_size_to_order() {
    let allocator = BuddyAllocator::new();
    assert_eq!(allocator.size_to_order(1), 0);
    assert_eq!(allocator.size_to_order(64), 0);
    assert_eq!(allocator.size_to_order(65), 1);
    assert_eq!(allocator.size_to_order(128), 1);
    assert_eq!(allocator.size_to_order(129), 2);
}

#[test]
fn test_order_to_size() {
    let allocator = BuddyAllocator::new();
    assert_eq!(allocator.order_to_size(0), 64);
    assert_eq!(allocator.order_to_size(1), 128);
    assert_eq!(allocator.order_to_size(2), 256);
    assert_eq!(allocator.order_to_size(10), 65536);
}

#[test]
fn test_buddy_address() {
    let allocator = BuddyAllocator::new();
    assert_eq!(allocator.buddy_address(0x1000, 0), 0x1000 ^ 64);
    assert_eq!(allocator.buddy_address(0x1000, 1), 0x1000 ^ 128);
}

#[test]
fn test_wx_validation() {
    assert!(CapabilityRights::READ().validate_wx());
    assert!(CapabilityRights::read_only().validate_wx());
    assert!(CapabilityRights::read_write().validate_wx());
    assert!(CapabilityRights::read_execute().validate_wx());
    let write_execute = CapabilityRights::WRITE() | CapabilityRights::EXECUTE();
    assert!(!write_execute.validate_wx(), "W+X should be rejected!");
    let all_rights =
        CapabilityRights::READ() | CapabilityRights::WRITE() | CapabilityRights::EXECUTE() | CapabilityRights::TRANSFER();
    assert!(!all_rights.validate_wx(), "Full rights with W+X should be rejected!");
}

#[test]
fn test_safe_combinations() {
    assert!(CapabilityRights::read_only().validate_wx());
    assert!(CapabilityRights::read_write().validate_wx());
    assert!(CapabilityRights::read_execute().validate_wx());
    assert!(CapabilityRights::code_with_transfer().validate_wx());
}

#[test]
fn test_insert_and_lookup() {
    let mut table = CapabilityTable::new();
    let handle = ObjectHandle(0x1000);
    let rights = CapabilityRights::READ();
    let cap = SealedCapability::new(handle, rights);
    let cap_id = table.insert(cap).unwrap();
    let retrieved = table.get(cap_id).unwrap();
    assert_eq!(retrieved.handle, handle);
    assert_eq!(retrieved.rights, rights);
}

#[test]
fn test_invalid_id() {
    let table = CapabilityTable::new();
    let invalid_id = CapabilityId::new(9999);
    assert_eq!(table.get(invalid_id), Err(CapabilityError::InvalidId));
}

#[test]
fn test_rights_check() {
    let mut table = CapabilityTable::new();
    let handle = ObjectHandle(0x1000);
    let rights = CapabilityRights::READ();
    let cap = SealedCapability::new(handle, rights);
    let cap_id = table.insert(cap).unwrap();
    assert!(table.check_rights(cap_id, CapabilityRights::READ()).is_ok());
    assert_eq!(table.check_rights(cap_id, CapabilityRights::WRITE()), Err(CapabilityError::PermissionDenied));
}

#[test]
fn test_derive_attenuation() {
    let mut table = CapabilityTable::new();
    let handle = ObjectHandle(0x1000);
    let parent_rights = CapabilityRights::READ() | CapabilityRights::WRITE();
    let parent = SealedCapability::new(handle, parent_rights);
    let parent_id = table.insert(parent).unwrap();
    let child_id = table.derive(parent_id, CapabilityRights::READ()).unwrap();
    let child = table.get(child_id).unwrap();
    assert!(child.rights.contains(CapabilityRights::READ()));
    assert!(!child.rights.contains(CapabilityRights::WRITE()));
}

#[test]
fn test_revocation() {
    let mut table = CapabilityTable::new();
    let handle = ObjectHandle(0x1000);
    let cap = SealedCapability::new(handle, CapabilityRights::READ());
    let cap_id = table.insert(cap).unwrap();
    assert!(table.get(cap_id).is_ok());
    let removed = table.remove(cap_id);
    assert!(removed.is_some());
    assert_eq!(table.get(cap_id), Err(CapabilityError::InvalidId));
}

#[test]
fn test_table_full() {
    let mut table = CapabilityTable::new();
    for i in 0..MAX_CAPABILITIES {
        let handle = ObjectHandle(i as u64);
        let cap = SealedCapability::new(handle, CapabilityRights::READ());
        assert!(table.insert(cap).is_ok());
    }
    let cap = SealedCapability::new(ObjectHandle(0xFFFF), CapabilityRights::READ());
    assert_eq!(table.insert(cap), Err(CapabilityError::TableFull));
}

#[test]
fn capability_seal_formula() {
    let cap = SealedCapability::new(ObjectHandle(0x1000), CapabilityRights::read_write());
    assert_eq!(cap.id.0, (0x1000 << 4) | 0b0011);
    assert_eq!(cap.seal, cap.id.0 ^ (0x1000 ^ 0x5EA1_5EA1_5EA1_5EA1) ^ (0b0011u64 << 32));
    assert!(cap.validate());
    let mut forged = cap;
    forged.rights = CapabilityRights::full();
    assert!(!forged.validate());
}

#[test]
fn test_relocation_type_parsing() {
    assert_eq!(RelocationType::from_u32(8), Some(RelocationType::Relative));
    assert_eq!(RelocationType::from_u32(1), Some(RelocationType::R64));
    assert_eq!(RelocationType::from_u32(999), None);
}

#[test]
fn test_rela_info_extraction() {
    let rela = Elf64Rela { r_offset: 0x1000, r_info: (42u64 << 32) | 8, r_addend: 0x100 };
    assert_eq!(rela.get_type(), 8);
    assert_eq!(rela.get_symbol(), 42);
    assert_eq!(rela.relocation_type(), Some(RelocationType::Relative));
}

#[test]
fn kaslr_relocations_only_relative() {
    let rels = [
        Elf64Rela { r_offset: 0x1000, r_info: 8, r_addend: 0x100 },
        Elf64Rela { r_offset: 0x2000, r_info: 1, r_addend: 0x200 },
        Elf64Rela { r_offset: 0x3000, r_info: (7u64 << 32) | 8, r_addend: -0x10 },
    ];
    let writes = kaslr_relocation_writes(&rels, 0x20_0000, 0x10_0000);
    assert_eq!(writes, vec![(0x20_1000, 0x30_0100), (0x20_3000, 0x30_0000 - 0x10)]);
    assert_eq!(RelocationType::Relative.name(), "R_X86_64_RELATIVE");
}

#[test]
fn test_hardware_rng() {
    let val1 = HardwareRng::u64();
    let val2 = HardwareRng::u64();
    assert_ne!(val1, val2);
}

#[test]
fn test_chacha8_deterministic() {
    let mut rng1 = ChaCha8Rng::from_seed(12345);
    let mut rng2 = ChaCha8Rng::from_seed(12345);
    for _ in 0..100 {
        assert_eq!(rng1.next_u64(), rng2.next_u64());
    }
}

#[test]
fn test_chacha8_different_seeds() {
    let mut rng1 = ChaCha8Rng::from_seed(12345);
    let mut rng2 = ChaCha8Rng::from_seed(54321);
    assert_ne!(rng1.next_u64(), rng2.next_u64());
}

#[test]
fn test_range() {
    let mut rng = ChaCha8Rng::from_seed(42);
    for _ in 0..100 {
        let val = rng.range(100, 200);
        assert!(val >= 100 && val < 200);
    }
}

#[test]
fn test_seal_generation() {
    let sealer = CapabilitySealer::new();
    let data = b"test capability data";
    let seal = sealer.seal(data);
    let seal2 = sealer.seal(data);
    assert_eq!(seal, seal2);
}

#[test]
fn test_seal_verification() {
    let sealer = CapabilitySealer::new();
    let data = b"test capability data";
    let seal = sealer.seal(data);
    assert!(sealer.verify(data, &seal));
}

#[test]
fn test_tampered_data_fails() {
    let sealer = CapabilitySealer::new();
    let data = b"test capability data";
    let seal = sealer.seal(data);
    let tampered = b"test capability DATA";
    assert!(!sealer.verify(tampered, &seal));
}

#[test]
fn test_tampered_seal_fails() {
    let sealer = CapabilitySealer::new();
    let data = b"test capability data";
    let seal = sealer.seal(data);
    let mut bad_seal = seal;
    bad_seal[0] ^= 1;
    assert!(!sealer.verify(data, &bad_seal));
}

#[test]
fn test_different_keys_different_seals() {
    let sealer1 = CapabilitySealer::new();
    let sealer2 = CapabilitySealer::new();
    let data = b"test capability data";
    let seal1 = sealer1.seal(data);
    let seal2 = sealer2.seal(data);
    assert_ne!(seal1, seal2);
}

#[test]
fn test_constant_time_compare() {
    let a = [0u8; 32];
    let b = [0u8; 32];
    let mut c = [0u8; 32];
    c[0] = 1;
    let mut d = [0u8; 32];
    d[31] = 1;
    assert!(constant_time_compare(&a, &b));
    assert!(!constant_time_compare(&a, &c));
    assert!(!constant_time_compare(&a, &d));
}

#[test]
fn seal_is_not_the_data() {
    let sealer = CapabilitySealer::new();
    let data = [7u8; 32];
    let seal = sealer.seal(&data);
    assert_ne!(seal, data);
}

#[test]
fn get_mut_finds_and_guards_entries() {
    let mut table = CapabilityTable::new();
    let handle = ObjectHandle(0x2000);
    let cap_id = table.insert(SealedCapability::new(handle, CapabilityRights::READ())).unwrap();
    {
        let cap = table.get_mut(cap_id).unwrap();
        assert_eq!(cap.handle, handle);
        cap.handle = ObjectHandle(0x3000);
    }
    assert_eq!(table.get(cap_id), Err(CapabilityError::SealBroken));
    assert_eq!(table.get_mut(cap_id).err(), Some(CapabilityError::SealBroken));
    assert_eq!(table.get_mut(CapabilityId::new(4242)).err(), Some(CapabilityError::InvalidId));
    assert_eq!(table.len(), 1);
}

#[test]
fn drawn_values_map_into_ranges() {
    assert_eq!(range_from(17, 10, 15), 12);
    assert_eq!(range_from(17, 10, 10), 10);
    assert_eq!(range_from(0, 3, 9), 3);
    assert_eq!(offset_from(7, 0x10000, 0x1000), 0x7000);
    assert_eq!(offset_from(0x13, 0x10000, 0x1000), 0x3000);
    assert_eq!(offset_from(5, 0, 16), 0);
    assert_eq!(offset_from(5, 64, 0), 0);
    let r = HardwareRng::range(100, 200);
    assert!((100..200).contains(&r));
    let _ = HardwareRng::try_u64();
    assert_ne!(HardwareRng::fast_u64(), 0);
}

#[test]
fn same_seed_same_stream_after_interleaving() {
    let mut a = ChaCha8Rng::from_seed(7);
    let mut b = ChaCha8Rng::from_seed(7);
    let first: Vec<u64> = (0..20).map(|_| a.next_u64()).collect();
    let mut second = Vec::new();
    for k in 0..20 {
        if k % 3 == 0 {
            second.push(b.next_u32() as u64);
        } else {
            second.push(b.next_u64());
        }
    }
    for k in 0..20 {
        if k % 3 == 0 {
            assert_eq!(second[k], first[k] as u32 as u64);
        } else {
            assert_eq!(second[k], first[k]);
        }
    }
}
