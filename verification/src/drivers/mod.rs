//! Hardware device drivers: the decisions and data encodings of the ATA driver.
pub mod ata;
