//! The Heartwood: verified core logic of the AethelOS kernel.
pub mod mana_pool;
pub mod attunement;
pub mod loom_of_fate;
pub mod groves;
pub mod nexus;
pub mod drivers;
pub mod stack_protection;
pub mod fate_command;
pub mod sigils_command;
