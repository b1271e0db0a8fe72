//! The Attunement Layer: descriptor tables, per-CPU data and the protection wards.
pub mod gdt;
pub mod per_cpu;
pub mod ward_of_sacred_boundaries;
pub mod ward_of_anonymity;
pub mod ward_of_unseen_paths;
pub mod timer;
pub mod keyboard;
