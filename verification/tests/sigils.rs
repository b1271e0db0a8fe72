use heartwood::loom_of_fate::context::ThreadContext;
use heartwood::loom_of_fate::thread::{Thread, ThreadId, ThreadPriority, ThreadState};
use heartwood::sigils_command::{active_thread_indices, duplicate_sigils};

fn thread(id: u64, sigil: u64, state: ThreadState) -> Thread {
    let mut t = Thread::new_with_context(ThreadId(id), ThreadContext::new(0x1000, 0x8000), ThreadPriority::Normal, None);
    t.sigil = sigil;
    t.state = state;
    t
}

#[test]
fn fading_threads_are_not_shown() {
    let ts = vec![
        thread(1, 10, ThreadState::Weaving),
        thread(2, 20, ThreadState::Fading),
        thread(3, 30, ThreadState::Resting),
        thread(4, 40, ThreadState::Tangled),
    ];
    assert_eq!(active_thread_indices(&ts), vec![0, 2, 3]);
    assert!(active_thread_indices(&[]).is_empty());
}

#[test]
fn duplicate_sigils_are_counted() {
    let distinct = vec![thread(1, 10, ThreadState::Weaving), thread(2, 20, ThreadState::Resting)];
    assert_eq!(duplicate_sigils(&distinct), 0);
    let repeated = vec![
        thread(1, 7, ThreadState::Weaving),
        thread(2, 7, ThreadState::Resting),
        thread(3, 9, ThreadState::Resting),
        thread(4, 7, ThreadState::Resting),
        thread(5, 9, ThreadState::Tangled),
    ];
    assert_eq!(duplicate_sigils(&repeated), 3);
    // A fading thread's sigil does not count.
    let fading = vec![thread(1, 7, ThreadState::Weaving), thread(2, 7, ThreadState::Fading)];
    assert_eq!(duplicate_sigils(&fading), 0);
}
