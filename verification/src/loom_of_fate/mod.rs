//! The Loom of Fate: threads, vessels, contexts and program loading.
pub mod context;
pub mod thread;
pub mod vessel;
pub mod errors;
pub mod elf_loader;
pub mod scheduler;
pub mod harbor;
pub mod syscalls;

use vstd::prelude::*;
use context::ThreadContext;
use errors::LoomError;
use scheduler::Scheduler;
use thread::{ThreadId, ThreadPriority, ThreadState};
use vessel::VesselId;

verus! {

/// Create a Ring 3 thread for a Vessel whose address space is rooted at
/// `page_table_phys`; it starts at `entry_point` on the user stack `user_stack_top`.
pub fn create_user_thread(
    loom: &mut Scheduler,
    vessel_id: VesselId,
    page_table_phys: u64,
    entry_point: u64,
    user_stack_top: u64,
    priority: ThreadPriority,
) -> (r: Result<ThreadId, LoomError>)
    requires
        old(loom).wf(),
        old(loom).spec_next_id() < u64::MAX,
    ensures
        final(loom).wf(),
        r == Ok::<ThreadId, LoomError>(ThreadId(old(loom).spec_next_id())),
        final(loom).spec_threads().drop_last() == old(loom).spec_threads(),
        final(loom).spec_threads().len() == old(loom).spec_threads().len() + 1,
        final(loom).spec_threads().last().context == context::context_with(
            entry_point,
            0x23,
            0x202,
            user_stack_top,
            0x1B,
            page_table_phys,
        ),
        final(loom).spec_threads().last().vessel_id == Some(vessel_id),
        final(loom).spec_threads().last().id == ThreadId(old(loom).spec_next_id()),
        final(loom).spec_threads().last().priority == priority,
        final(loom).spec_threads().last().state == ThreadState::Resting,
        final(loom).spec_ready() == old(loom).spec_ready().push(ThreadId(old(loom).spec_next_id())),
{
    let context = ThreadContext::new_user_mode(entry_point, user_stack_top, page_table_phys);
    let id = loom.spawn_with_context(context, priority, Some(vessel_id));
    Ok(id)
}

/// Create a Ring 1 service thread for a Grove service's Vessel whose address space
/// is rooted at `page_table_phys`; it starts at `entry_point` on `service_stack_top`.
pub fn create_service_thread(
    loom: &mut Scheduler,
    vessel_id: VesselId,
    page_table_phys: u64,
    entry_point: u64,
    service_stack_top: u64,
    priority: ThreadPriority,
) -> (r: Result<ThreadId, LoomError>)
    requires
        old(loom).wf(),
        old(loom).spec_next_id() < u64::MAX,
    ensures
        final(loom).wf(),
        r == Ok::<ThreadId, LoomError>(ThreadId(old(loom).spec_next_id())),
        final(loom).spec_threads().drop_last() == old(loom).spec_threads(),
        final(loom).spec_threads().len() == old(loom).spec_threads().len() + 1,
        final(loom).spec_threads().last().context == context::context_with(
            entry_point,
            0x29,
            0x1202,
            service_stack_top,
            0x31,
            page_table_phys,
        ),
        final(loom).spec_threads().last().vessel_id == Some(vessel_id),
        final(loom).spec_threads().last().id == ThreadId(old(loom).spec_next_id()),
        final(loom).spec_threads().last().priority == priority,
        final(loom).spec_threads().last().state == ThreadState::Resting,
        final(loom).spec_ready() == old(loom).spec_ready().push(ThreadId(old(loom).spec_next_id())),
{
    let context = ThreadContext::new_service_mode(entry_point, service_stack_top, page_table_phys);
    let id = loom.spawn_with_context(context, priority, Some(vessel_id));
    Ok(id)
}

} // verus!
