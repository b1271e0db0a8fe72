use heartwood::drivers::ata::{
    classify_signature, drive_select_byte, identify_status, not_busy, sector_count_from_identify, words_to_bytes,
    AtaDrive, DeviceKind, IdentifyStatus, DEFAULT_SECTORS,
};

#[test]
fn ata_identify_sector_count() {
    let mut words = [0u16; 256];
    words[60] = 0x5678;
    words[61] = 0x0012;
    let d = AtaDrive::from_identify(0x1F0, 0, &words);
    assert_eq!(d.sector_count(), 0x12_5678);
    assert_eq!(d.sector_size(), 512);
    let empty = AtaDrive::from_identify(0x1F0, 1, &[0u16; 256]);
    assert_eq!(empty.sector_count(), DEFAULT_SECTORS);
    assert_eq!(sector_count_from_identify(1, 0), 1);
}

#[test]
fn ata_read_registers() {
    let mut words = [0u16; 256];
    words[60] = 0xFFFF;
    words[61] = 0x0FFF;
    let d = AtaDrive::from_identify(0x1F0, 1, &words);
    assert_eq!(d.read_registers(0x0ABC_DEF1), Some((0xE0 | 0x10 | 0x0A, 1, 0xF1, 0xDE, 0xBC)));
    assert_eq!(d.read_registers(0x0FFF_FFFF), None);
}

#[test]
fn ata_status_decisions() {
    assert_eq!(drive_select_byte(0), 0xA0);
    assert_eq!(drive_select_byte(1), 0xB0);
    assert_eq!(classify_signature(0, 0), DeviceKind::Ata);
    assert_eq!(classify_signature(0x14, 0xEB), DeviceKind::Atapi);
    assert_eq!(classify_signature(0x3C, 0xC3), DeviceKind::Unknown);
    assert!(not_busy(0x50));
    assert!(!not_busy(0x80));
    assert_eq!(identify_status(0), IdentifyStatus::NoDrive);
    assert_eq!(identify_status(0x51), IdentifyStatus::Failed);
    assert_eq!(identify_status(0x58), IdentifyStatus::Ready);
    assert_eq!(identify_status(0x88), IdentifyStatus::Pending);
}

#[test]
fn ata_words_little_endian() {
    assert_eq!(words_to_bytes(&[0x1234, 0xABCD]), vec![0x34, 0x12, 0xCD, 0xAB]);
}
