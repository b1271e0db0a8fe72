//! ATA/IDE disk driver (PIO mode, 28-bit LBA): drive identity, register
//! encodings, status decisions and data conversion.
//!
//! The port reads and writes themselves are performed by the caller.
use vstd::prelude::*;

verus! {

/// Status register: busy.
pub const ATA_STATUS_BSY: u8 = 0x80;
/// Status register: data request ready.
pub const ATA_STATUS_DRQ: u8 = 0x08;
/// Status register: error.
pub const ATA_STATUS_ERR: u8 = 0x01;
/// Primary bus base port.
pub const ATA_PRIMARY_BASE: u16 = 0x1F0;
/// Bytes per sector.
pub const SECTOR_SIZE: u32 = 512;
/// Sector count assumed when the drive reports none.
pub const DEFAULT_SECTORS: u64 = 2048;
/// Number of status polls before a wait gives up.
pub const POLL_LIMIT: u32 = 50000;

/// An ATA drive found on a bus.
#[derive(Debug, Clone, Copy, PartialEq, Eq, Structural)]
pub struct AtaDrive {
    bus: u16,
    drive: u8,
    sectors: u64,
    sector_size: u32,
}

/// What the signature bytes after reset say about the device.
#[derive(Debug, Clone, Copy, PartialEq, Eq, Structural)]
pub enum DeviceKind {
    /// A plain ATA disk (signature 0x00 / 0x00).
    Ata,
    /// A packet device such as a CD drive (0x14 / 0xEB); not supported.
    Atapi,
    /// Anything else.
    Unknown,
}

/// What a status byte read while waiting for IDENTIFY data means.
#[derive(Debug, Clone, Copy, PartialEq, Eq, Structural)]
pub enum IdentifyStatus {
    /// Status 0: no drive on the bus.
    NoDrive,
    /// The error bit is set.
    Failed,
    /// Not busy and data ready: the 256 IDENTIFY words can be read.
    Ready,
    /// Keep polling.
    Pending,
}

/// The sector count in IDENTIFY words 60-61 (28-bit LBA capacity), or the default
/// when it is zero.
pub open spec fn identify_sectors_spec(w60: u16, w61: u16) -> u64 {
    let n = w61 as int * 0x1_0000 + w60 as int;
    if n > 0 {
        n as u64
    } else {
        DEFAULT_SECTORS
    }
}

impl AtaDrive {
    pub closed spec fn spec_bus(&self) -> u16 {
        self.bus
    }

    pub closed spec fn spec_drive(&self) -> u8 {
        self.drive
    }

    pub closed spec fn spec_sectors(&self) -> u64 {
        self.sectors
    }

    pub closed spec fn spec_sector_size(&self) -> u32 {
        self.sector_size
    }

    /// The drive described by its IDENTIFY data: the capacity in words 60-61
    /// (or the default when zero), 512-byte sectors.
    pub fn from_identify(bus: u16, drive: u8, identify: &[u16]) -> (r: Self)
        requires
            identify@.len() == 256,
        ensures
            r.spec_bus() == bus,
            r.spec_drive() == drive,
            r.spec_sectors() == identify_sectors_spec(identify@[60], identify@[61]),
            r.spec_sector_size() == SECTOR_SIZE,
    {
        AtaDrive { bus, drive, sectors: sector_count_from_identify(identify[60], identify[61]), sector_size: SECTOR_SIZE }
    }

    /// Total number of sectors on the drive.
    pub fn sector_count(&self) -> (r: u64)
        ensures
            r == self.spec_sectors(),
    {
        self.sectors
    }

    /// Size of a sector in bytes.
    pub fn sector_size(&self) -> (r: u32)
        ensures
            r == self.spec_sector_size(),
    {
        self.sector_size
    }

    /// Base port of the drive's bus.
    pub fn bus(&self) -> (r: u16)
        ensures
            r == self.spec_bus(),
    {
        self.bus
    }

    /// The drive's position on its bus (0 = master, 1 = slave).
    pub fn drive(&self) -> (r: u8)
        ensures
            r == self.spec_drive(),
    {
        self.drive
    }

    /// Register values for reading sector `lba`: drive/head byte (LBA mode, drive
    /// bit, LBA bits 24-27), sector count 1, then LBA bits 0-7, 8-15, 16-23.
    /// `None` when the sector is past the end of the drive.
    pub fn read_registers(&self, lba: u64) -> (r: Option<(u8, u8, u8, u8, u8)>)
        ensures
            lba >= self.spec_sectors() ==> r is None,
            lba < self.spec_sectors() ==> r == Some(
                (
                    0xE0u8 | (self.spec_drive() << 4u8) | (((lba / 0x100_0000) % 0x10) as u8),
                    1u8,
                    (lba % 0x100) as u8,
                    ((lba / 0x100) % 0x100) as u8,
                    ((lba / 0x1_0000) % 0x100) as u8,
                ),
            ),
    {
        if lba >= self.sectors {
            return None;
        }
        let d = self.drive;
        let hi4 = ((lba >> 24u64) & 0x0F) as u8;
        assert((lba >> 24u64) & 0x0F == (lba / 0x100_0000) % 0x10) by (bit_vector);
        let low = (lba & 0xFF) as u8;
        assert(lba & 0xFF == lba % 0x100) by (bit_vector);
        let mid = ((lba >> 8u64) & 0xFF) as u8;
        assert((lba >> 8u64) & 0xFF == (lba / 0x100) % 0x100) by (bit_vector);
        let high = ((lba >> 16u64) & 0xFF) as u8;
        assert((lba >> 16u64) & 0xFF == (lba / 0x1_0000) % 0x100) by (bit_vector);
        let drive_byte: u8 = 0xE0u8 | (d << 4u8) | hi4;
        Some((drive_byte, 1u8, low, mid, high))
    }
}

/// Sector count from IDENTIFY words 60 (low) and 61 (high); the default when zero.
pub fn sector_count_from_identify(w60: u16, w61: u16) -> (r: u64)
    ensures
        r == identify_sectors_spec(w60, w61),
{
    let sectors = (w61 as u64) * 0x1_0000 + (w60 as u64);
    if sectors > 0 {
        sectors
    } else {
        DEFAULT_SECTORS
    }
}

/// The drive-select byte for detection: 0xA0 for the master, 0xB0 for the slave.
pub fn drive_select_byte(drive: u8) -> (r: u8)
    ensures
        r == (if drive % 2 == 0 {
            0xA0u8
        } else {
            0xB0u8
        }),
{
    if drive % 2 == 0 {
        0xA0
    } else {
        0xB0
    }
}

/// Classify a device by the LBA-mid and LBA-high signature bytes.
pub fn classify_signature(lba_mid: u8, lba_high: u8) -> (r: DeviceKind)
    ensures
        r == (if lba_mid == 0x14 && lba_high == 0xEB {
            DeviceKind::Atapi
        } else if lba_mid == 0 && lba_high == 0 {
            DeviceKind::Ata
        } else {
            DeviceKind::Unknown
        }),
{
    if lba_mid == 0x14 && lba_high == 0xEB {
        DeviceKind::Atapi
    } else if lba_mid == 0 && lba_high == 0 {
        DeviceKind::Ata
    } else {
        DeviceKind::Unknown
    }
}

/// Whether a status byte has the busy bit clear.
pub fn not_busy(status: u8) -> (r: bool)
    ensures
        r == (status & ATA_STATUS_BSY == 0),
{
    status & ATA_STATUS_BSY == 0
}

/// Interpret a status byte read while waiting for IDENTIFY data.
pub fn identify_status(status: u8) -> (r: IdentifyStatus)
    ensures
        r == (if status == 0 {
            IdentifyStatus::NoDrive
        } else if status & ATA_STATUS_ERR != 0 {
            IdentifyStatus::Failed
        } else if status & ATA_STATUS_BSY == 0 && status & ATA_STATUS_DRQ != 0 {
            IdentifyStatus::Ready
        } else {
            IdentifyStatus::Pending
        }),
{
    if status == 0 {
        IdentifyStatus::NoDrive
    } else if status & ATA_STATUS_ERR != 0 {
        IdentifyStatus::Failed
    } else if status & ATA_STATUS_BSY == 0 && status & ATA_STATUS_DRQ != 0 {
        IdentifyStatus::Ready
    } else {
        IdentifyStatus::Pending
    }
}

/// The bytes of 16-bit data words, each word low byte first.
pub fn words_to_bytes(words: &[u16]) -> (r: Vec<u8>)
    requires
        words@.len() * 2 <= usize::MAX,
    ensures
        r@.len() == words@.len() * 2,
        forall|i: int|
            0 <= i < words@.len() ==> r@[2 * i] == words@[i] % 0x100 && r@[2 * i + 1] == #[trigger] words@[i]
                / 0x100,
{
    let mut out: Vec<u8> = Vec::new();
    let mut i: usize = 0;
    while i < words.len()
        invariant
            i <= words@.len(),
            out@.len() == 2 * i,
            forall|k: int|
                0 <= k < i ==> out@[2 * k] == words@[k] % 0x100 && out@[2 * k + 1] == #[trigger] words@[k]
                    / 0x100,
        decreases words@.len() - i,
    {
        let w = words[i];
        let lo = (w & 0xFF) as u8;
        let hi = (w >> 8u16) as u8;
        assert(w & 0xFF == w % 0x100) by (bit_vector);
        assert(w >> 8u16 == w / 0x100) by (bit_vector);
        out.push(lo);
        out.push(hi);
        i = i + 1;
    }
    out
}

} // verus!
