//! The Mana Pool: memory management, capabilities and security policy.
pub mod object_manager;
pub mod capability;
pub mod buddy;
pub mod capability_table;
pub mod entropy;
pub mod sealing;
pub mod aslr;
pub mod concordance_of_fates;
pub mod elf_relocations;
pub mod page_tables;
pub mod sanctuary;
pub mod bump_allocator;
pub mod heap_canaries;
pub mod rune_of_permanence;
pub mod kernel_sections;
pub mod allocator;
pub mod user_space;
pub mod security_policy;

use vstd::prelude::*;

verus! {

/// Errors of the memory manager.
#[derive(Debug, Clone, Copy, PartialEq, Eq, Structural)]
pub enum ManaError {
    /// Not enough memory left for the request.
    OutOfMemory,
}

} // verus!
