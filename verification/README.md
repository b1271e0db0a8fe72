# Heartwood

The core of the AethelOS kernel as a library verified with Verus: its data
structures, allocators, schedulers and policy checks, each public function with
a contract that states what it returns or changes.

- `src/mana_pool`: memory — the buddy and bump allocators, heap canaries,
  capabilities and their table, sealing, ASLR, ELF relocations, page-table
  entries, user address spaces, the security policy and the Concordance of
  Fates (role-based access control).
- `src/loom_of_fate`: threads and processes — thread contexts, the scheduler,
  the Harbor of Vessels, ELF loading and system-call decisions.
- `src/attunement`: CPU-facing tables and wards — GDT/TSS, per-CPU data, the
  keyboard decoder, the tick counter, pointer validation, symbol hiding, KASLR.
- `src/groves`: the registry and lifecycle of Ring 1 services.
- `src/nexus`: message channels.
- `src/drivers`: the ATA driver's decisions.
- `src/fate_command.rs`, `src/sigils_command.rs`: what the shell commands
  compute before they print.

`app/` is the machine side: port and memory access, page-table writes, context
switching, the shell's output and the boot sequence. It calls the library for
every decision and only moves bytes.
