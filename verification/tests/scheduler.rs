use heartwood::loom_of_fate::context::ThreadContext;
use heartwood::loom_of_fate::create_user_thread;
use heartwood::loom_of_fate::errors::{LoomError, SyscallError};
use heartwood::loom_of_fate::harbor::Harbor;
use heartwood::loom_of_fate::scheduler::{Scheduler, DEFAULT_QUANTUM};
use heartwood::loom_of_fate::syscalls::{
    check_write, decode_syscall, exit_current, sys_getpid, sys_gettid, validate_user_pointer, Syscall,
};
use heartwood::loom_of_fate::thread::{ThreadId, ThreadPriority, ThreadState};
use heartwood::loom_of_fate::vessel::{VesselId, VesselState};

fn spawn(s: &mut Scheduler) -> ThreadId {
    s.spawn(0x1000, ThreadPriority::Normal, 0x10_0000, 0x10_4000).unwrap()
}

#[test]
fn round_robin_yields() {
    let mut s = Scheduler::new();
    let a = spawn(&mut s);
    let b = spawn(&mut s);
    let c = spawn(&mut s);
    assert_eq!((a, b, c), (ThreadId(1), ThreadId(2), ThreadId(3)));
    s.prepare_handoff(a);
    assert_eq!(s.current_thread_id(), Some(a));
    assert_eq!(s.find_thread(a).unwrap().state(), ThreadState::Weaving);
    let p = s.prepare_yield(10).unwrap();
    assert_eq!((p.from, p.to), (a, b));
    assert_eq!(p.to_vessel, None);
    assert_eq!(p.next_sigil, s.find_thread(b).unwrap().sigil);
    assert_eq!(s.find_thread(a).unwrap().state(), ThreadState::Resting);
    assert_eq!(s.find_thread(a).unwrap().yields, 1);
    let tb = s.find_thread(b).unwrap();
    assert_eq!(tb.state(), ThreadState::Weaving);
    assert_eq!(tb.time_slices_used, 1);
    assert_eq!(tb.last_run_time, 10);
    let p = s.prepare_yield(11).unwrap();
    assert_eq!((p.from, p.to), (b, c));
    let p = s.prepare_yield(12).unwrap();
    assert_eq!((p.from, p.to), (c, a));
    assert_eq!(s.stats().context_switches, 3);
    assert_eq!(s.stats().total_threads, 3);
    assert_eq!(s.stats().weaving_threads, 1);
    assert_eq!(s.stats().resting_threads, 2);
}

#[test]
fn terminated_thread_is_skipped() {
    let mut s = Scheduler::new();
    let a = spawn(&mut s);
    let b = spawn(&mut s);
    let c = spawn(&mut s);
    s.prepare_handoff(a);
    assert_eq!(s.terminate_thread(b), Ok(()));
    assert_eq!(s.terminate_thread(ThreadId(99)), Err(LoomError::ThreadNotFound));
    let p = s.prepare_yield(1).unwrap();
    assert_eq!(p.to, c);
    let p = s.prepare_yield(2).unwrap();
    assert_eq!(p.to, a);
    assert_eq!(s.find_thread(b).unwrap().state(), ThreadState::Fading);
    assert_eq!(s.thread_debug_info().len(), 2);
}

#[test]
fn exiting_thread_is_not_requeued() {
    let mut s = Scheduler::new();
    let a = spawn(&mut s);
    let b = spawn(&mut s);
    s.prepare_handoff(a);
    assert_eq!(exit_current(&mut s), Some(a));
    let p = s.prepare_yield(5).unwrap();
    assert_eq!((p.from, p.to), (a, b));
    assert_eq!(s.prepare_yield(6), None);
    assert_eq!(s.current_thread_id(), Some(b));
}

#[test]
fn yield_without_running_thread() {
    let mut s = Scheduler::new();
    assert_eq!(s.prepare_yield(0), None);
    let a = spawn(&mut s);
    assert_eq!(s.prepare_yield(0), None);
    assert_eq!(s.current_thread_id(), None);
    assert_eq!(s.find_thread(a).unwrap().state(), ThreadState::Resting);
    assert_eq!(exit_current(&mut s), None);
}

#[test]
fn preemption_quantum() {
    let mut s = Scheduler::new();
    assert!(!s.is_preemption_enabled());
    assert_eq!(s.get_time_quantum(), DEFAULT_QUANTUM);
    s.tick_quantum();
    assert!(!s.should_preempt());
    s.enable_preemption(2);
    s.tick_quantum();
    assert!(!s.should_preempt());
    s.tick_quantum();
    assert!(s.should_preempt());
    assert!(!s.should_preempt());
    s.disable_preemption();
    assert!(!s.is_preemption_enabled());
}

#[test]
fn user_threads_carry_their_vessel() {
    let mut s = Scheduler::new();
    let t = create_user_thread(&mut s, VesselId(4), 0x20_0000, 0x40_0000, 0x7FFF_0000, ThreadPriority::High).unwrap();
    let th = s.find_thread(t).unwrap();
    assert_eq!(th.vessel_id(), Some(VesselId(4)));
    assert_eq!(th.context().cs, 0x23);
    assert_eq!(th.context().cr3, 0x20_0000);
    assert_eq!(s.get_thread_context(t).unwrap().rip, 0x40_0000);
    let k = spawn(&mut s);
    s.prepare_handoff(k);
    let p = s.prepare_yield(0).unwrap();
    assert_eq!(p.to_vessel, Some(VesselId(4)));
    let ctx = ThreadContext::new(1, 2);
    assert_eq!(s.spawn_with_context(ctx, ThreadPriority::Low, None), ThreadId(3));
}

#[test]
fn harbor_registry() {
    let mut h: Harbor<u32> = Harbor::new();
    let v1 = h.moor_vessel(None, 7, 0, 0xFFFF_8000_0001_0000, ThreadId(1), String::from("Guardian"));
    let failed = h.moor_user_vessel(Some(v1), String::from("Weaver"), ThreadId(2), Err("bad elf"));
    assert_eq!(failed, Err("bad elf"));
    let v3 = h.moor_user_vessel(Some(v1), String::from("Weaver"), ThreadId(3), Ok((9, 0x5000, 0x40_1000, 0x9000))).unwrap();
    assert_eq!((v1, v3), (VesselId(1), VesselId(3)));
    assert_eq!(h.vessel_count(), 2);
    assert_eq!(h.all_beacons(), vec![VesselId(1), VesselId(3)]);
    let v = h.find_vessel(v3).unwrap();
    assert!(v.is_user_mode());
    assert_eq!(v.entry_point(), 0x40_1000);
    assert_eq!(v.fate(), "Weaver");
    assert_eq!(*v.address_space(), 9);
    assert!(!h.find_vessel(v1).unwrap().is_user_mode());
    assert_eq!(h.find_vessel_by_thread(ThreadId(3)), Some(v3));
    assert_eq!(h.find_vessel_by_thread(ThreadId(2)), None);
    assert!(h.set_vessel_state(v3, VesselState::Weaving));
    assert!(h.set_main_thread(v3, ThreadId(8)));
    assert_eq!(h.find_vessel_by_thread(ThreadId(8)), Some(v3));
    let st = h.stats();
    assert_eq!((st.total_vessels, st.nascent, st.weaving), (2, 1, 1));
    assert!(h.unmoor_vessel(v1));
    assert!(!h.unmoor_vessel(v1));
    assert_eq!(h.count_by_state(VesselState::Nascent), 0);
}

#[test]
fn syscall_decoding_and_checks() {
    assert_eq!(decode_syscall(0, 0, 0, 0), Ok(Syscall::Yield));
    assert_eq!(decode_syscall(1, 1, 0x1000, 5), Ok(Syscall::Write { fd: 1, buf: 0x1000, count: 5 }));
    assert_eq!(decode_syscall(2, 0xFFFF_FFFF_0000_0007, 0, 0), Ok(Syscall::Exit { code: 7 }));
    assert_eq!(decode_syscall(9, 0, 0, 0), Err(SyscallError::ENOSYS));
    assert_eq!(SyscallError::ENOSYS.code(), -38);
    assert_eq!(check_write(1, 0x1000, 10), Ok(10));
    assert_eq!(check_write(3, 0x1000, 10), Err(SyscallError::EINVAL));
    assert_eq!(check_write(2, 0x1000, 4097), Err(SyscallError::EINVAL));
    assert_eq!(check_write(2, 0x8000_0000_0000, 1), Err(SyscallError::EFAULT));
    assert_eq!(validate_user_pointer(0x1000, 16), Ok(()));
    assert_eq!(validate_user_pointer(0x7FFF_FFFF_FFF0, 16), Err(SyscallError::EFAULT));
    assert_eq!(sys_gettid(Some(ThreadId(5))), 5);
    assert_eq!(sys_gettid(None), 0);
    assert_eq!(sys_getpid(Some(ThreadId(5))), 1);
    assert_eq!(sys_getpid(None), 0);
}

#[test]
fn rebalance_orders_by_score_keeping_ties() {
    let mut s = Scheduler::new();
    let a = spawn(&mut s);
    let b = spawn(&mut s);
    let c = spawn(&mut s);
    let d = spawn(&mut s);
    assert_eq!(s.ready_threads(), &[a, b, c, d]);
    s.rebalance_ready_queue(&vec![1, 3, 2, 3]);
    assert_eq!(s.ready_threads(), &[b, d, c, a]);
    assert_eq!(s.stats().total_threads, 4);
    s.rebalance_ready_queue(&vec![0, 0, 0, 0]);
    assert_eq!(s.ready_threads(), &[b, d, c, a]);
}
