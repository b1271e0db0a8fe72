//! The Scheduler: the core of the Loom of Fate.
//!
//! Threads wait in a first-in first-out ready queue. A yield takes the first
//! waiting thread, puts the yielding thread at the back of the queue (unless it
//! is fading away) and records the switch; the caller performs the register
//! switch itself. Preemption is driven by a time quantum counted in timer ticks.
use vstd::prelude::*;
use std::collections::VecDeque;
use super::context::ThreadContext;
use super::errors::{LoomError, ThreadDebugInfo};
use super::thread::{Thread, ThreadId, ThreadPriority, ThreadState, same_but_state};
use super::vessel::VesselId;

verus! {

/// Maximum number of threads.
pub const MAX_THREADS: usize = 1024;

/// Default time quantum, in timer ticks.
pub const DEFAULT_QUANTUM: u64 = 100;

/// Position of the first thread with identifier `id`, searching from `i`.
pub open spec fn thread_index_from(ts: Seq<Thread>, id: u64, i: int) -> Option<int>
    decreases ts.len() - i,
{
    if i < 0 || i >= ts.len() {
        None
    } else if ts[i].id.0 == id {
        Some(i)
    } else {
        thread_index_from(ts, id, i + 1)
    }
}

/// Position of the thread with identifier `id`.
pub open spec fn thread_index(ts: Seq<Thread>, id: u64) -> Option<int> {
    thread_index_from(ts, id, 0)
}

/// The thread `id` exists and is not fading away.
pub open spec fn runnable(ts: Seq<Thread>, id: ThreadId) -> bool {
    thread_index(ts, id.0) matches Some(i) && ts[i].state != ThreadState::Fading
}

/// Number of threads in `state` among the first `n`.
pub open spec fn count_in_state(ts: Seq<Thread>, state: ThreadState, n: int) -> nat
    decreases n,
{
    if n <= 0 || n > ts.len() {
        0
    } else {
        count_in_state(ts, state, n - 1) + if ts[n - 1].state == state {
            1nat
        } else {
            0nat
        }
    }
}

/// `ids` without any occurrence of `id`, order kept.
pub open spec fn without(ids: Seq<ThreadId>, id: ThreadId) -> Seq<ThreadId>
    decreases ids.len(),
{
    if ids.len() == 0 {
        ids
    } else if ids.last() != id {
        without(ids.drop_last(), id).push(ids.last())
    } else {
        without(ids.drop_last(), id)
    }
}

/// Debug records of the threads among the first `n` that are not fading away.
pub open spec fn debug_infos(ts: Seq<Thread>, n: int) -> Seq<ThreadDebugInfo>
    decreases n,
{
    if n <= 0 || n > ts.len() {
        Seq::empty()
    } else if ts[n - 1].state != ThreadState::Fading {
        let t = ts[n - 1];
        debug_infos(ts, n - 1).push(
            ThreadDebugInfo {
                id: t.id.0,
                stack_bottom: t.stack_bottom,
                stack_top: t.stack_top,
                stack_size: if t.stack_top >= t.stack_bottom {
                    (t.stack_top - t.stack_bottom) as u64
                } else {
                    0
                },
                state: t.state,
                priority: t.priority,
            },
        )
    } else {
        debug_infos(ts, n - 1)
    }
}

/// Position of the first entry at or after `i` whose key is below `k` (the length
/// when there is none).
pub open spec fn first_below(s: Seq<(ThreadId, u32)>, k: u32, i: int) -> int
    decreases s.len() - i,
{
    if i < 0 || i >= s.len() {
        s.len() as int
    } else if s[i].1 < k {
        i
    } else {
        first_below(s, k, i + 1)
    }
}

/// `s` (ordered by decreasing key) with `x` inserted after every entry whose key
/// is at least that of `x`.
pub open spec fn insert_by_key(s: Seq<(ThreadId, u32)>, x: (ThreadId, u32)) -> Seq<(ThreadId, u32)> {
    s.insert(first_below(s, x.1, 0), x)
}

/// `s` sorted by decreasing key; entries with equal keys keep their order.
pub open spec fn sort_by_key_desc(s: Seq<(ThreadId, u32)>) -> Seq<(ThreadId, u32)>
    decreases s.len(),
{
    if s.len() == 0 {
        s
    } else {
        insert_by_key(sort_by_key_desc(s.drop_last()), s.last())
    }
}

/// The ready queue reordered by `keys` (one per queue position), highest key
/// first, ties in queue order.
pub open spec fn rebalanced(q: Seq<ThreadId>, keys: Seq<u32>) -> Seq<ThreadId> {
    sort_by_key_desc(Seq::new(q.len(), |i: int| (q[i], keys[i]))).map_values(|p: (ThreadId, u32)| p.0)
}

proof fn lemma_first_below_bounds(s: Seq<(ThreadId, u32)>, k: u32, i: int)
    requires
        0 <= i,
    ensures
        0 <= first_below(s, k, i) <= s.len(),
    decreases s.len() - i,
{
    if i < s.len() && s[i].1 >= k {
        lemma_first_below_bounds(s, k, i + 1);
    }
}

/// Sorting keeps every entry's thread, as many times as it occurs.
proof fn lemma_sort_keeps_threads(s: Seq<(ThreadId, u32)>)
    ensures
        sort_by_key_desc(s).map_values(|p: (ThreadId, u32)| p.0).to_multiset()
            == s.map_values(|p: (ThreadId, u32)| p.0).to_multiset(),
    decreases s.len(),
{
    broadcast use vstd::seq_lib::to_multiset_build, vstd::seq_lib::to_multiset_insert;

    if s.len() > 0 {
        let rest = sort_by_key_desc(s.drop_last());
        let x = s.last();
        let j = first_below(rest, x.1, 0);
        lemma_sort_keeps_threads(s.drop_last());
        lemma_first_below_bounds(rest, x.1, 0);
        assert(rest.insert(j, x).map_values(|p: (ThreadId, u32)| p.0) =~= rest.map_values(
            |p: (ThreadId, u32)| p.0,
        ).insert(j, x.0));
        assert(s.map_values(|p: (ThreadId, u32)| p.0) =~= s.drop_last().map_values(|p: (ThreadId, u32)| p.0).push(
            x.0,
        ));
    }
}

/// Law: rebalancing only reorders the ready queue; every queued thread stays,
/// as many times as it was queued, and no other joins.
pub proof fn lemma_rebalance_keeps_threads(q: Seq<ThreadId>, keys: Seq<u32>)
    requires
        keys.len() == q.len(),
    ensures
        rebalanced(q, keys).to_multiset() == q.to_multiset(),
{
    let pairs = Seq::new(q.len(), |i: int| (q[i], keys[i]));
    lemma_sort_keeps_threads(pairs);
    assert(pairs.map_values(|p: (ThreadId, u32)| p.0) =~= q);
}

/// A context switch decided by `prepare_yield`.
#[derive(Debug, Clone, Copy, PartialEq, Eq, Structural)]
pub struct SwitchPlan {
    /// The thread giving up the CPU (its registers are saved).
    pub from: ThreadId,
    /// The thread to run next.
    pub to: ThreadId,
    /// The stack-canary value to install for `to`.
    pub next_sigil: u64,
    /// The Vessel of `to`, whose kernel stack must be installed; `None` for kernel threads.
    pub to_vessel: Option<VesselId>,
}

/// What terminating `thread_id` does to the scheduler `l0`, giving `l1`: nothing
/// for an unknown thread; otherwise the thread is Fading, off the ready queue,
/// and everything else stays.
pub open spec fn terminate_effect(l0: Scheduler, l1: Scheduler, thread_id: ThreadId) -> bool {
    match thread_index(l0.spec_threads(), thread_id.0) {
        None => l1 == l0,
        Some(i) => {
            &&& l1.spec_ready() == without(l0.spec_ready(), thread_id)
            &&& l1.spec_current() == l0.spec_current()
            &&& l1.spec_next_id() == l0.spec_next_id()
            &&& l1.spec_threads().len() == l0.spec_threads().len()
            &&& l1.spec_threads()[i].state == ThreadState::Fading
            &&& same_but_state(l1.spec_threads()[i], l0.spec_threads()[i])
            &&& forall|k: int|
                0 <= k < l0.spec_threads().len() && k != i ==> l1.spec_threads()[k] == l0.spec_threads()[k]
        },
    }
}

/// Statistics about the scheduler.
#[derive(Debug, Clone, Copy)]
pub struct SchedulerStats {
    pub total_threads: usize,
    pub weaving_threads: usize,
    pub resting_threads: usize,
    pub tangled_threads: usize,
    pub context_switches: u64,
}

/// The thread scheduler.
pub struct Scheduler {
    threads: Vec<Thread>,
    ready_queue: VecDeque<ThreadId>,
    current_thread: Option<ThreadId>,
    next_thread_id: u64,
    context_switches: u64,
    preemption_enabled: bool,
    time_quantum: u64,
    quantum_remaining: u64,
}

impl Scheduler {
    pub closed spec fn spec_threads(&self) -> Seq<Thread> {
        self.threads@
    }

    /// The ready queue, front first.
    pub closed spec fn spec_ready(&self) -> Seq<ThreadId> {
        self.ready_queue@
    }

    pub closed spec fn spec_current(&self) -> Option<ThreadId> {
        self.current_thread
    }

    pub closed spec fn spec_next_id(&self) -> u64 {
        self.next_thread_id
    }

    pub closed spec fn spec_switches(&self) -> u64 {
        self.context_switches
    }

    pub closed spec fn spec_preemption(&self) -> bool {
        self.preemption_enabled
    }

    pub closed spec fn spec_quantum(&self) -> u64 {
        self.time_quantum
    }

    pub closed spec fn spec_remaining(&self) -> u64 {
        self.quantum_remaining
    }

    /// Scheduler invariant: identifiers unique and below the next one, every
    /// queued thread exists and is not fading, the running thread exists.
    pub closed spec fn wf(&self) -> bool {
        let ts = self.threads@;
        &&& self.next_thread_id >= 1
        &&& forall|i: int, j: int| 0 <= i < ts.len() && 0 <= j < ts.len() && i != j ==> ts[i].id != ts[j].id
        &&& forall|i: int| 0 <= i < ts.len() ==> 1 <= #[trigger] ts[i].id.0 < self.next_thread_id
        &&& forall|k: int| 0 <= k < self.ready_queue@.len() ==> runnable(ts, #[trigger] self.ready_queue@[k])
        &&& self.current_thread matches Some(c) ==> thread_index(ts, c.0) is Some
    }

    /// The invariant's facts for callers: queued threads exist and are not fading,
    /// and the running thread exists.
    pub proof fn lemma_wf(&self)
        requires
            self.wf(),
        ensures
            forall|k: int| 0 <= k < self.spec_ready().len() ==> runnable(self.spec_threads(), #[trigger] self.spec_ready()[k]),
            self.spec_current() matches Some(c) ==> thread_index(self.spec_threads(), c.0) is Some,
    {
    }

    /// An empty scheduler: no threads, cooperative mode, a 100-tick quantum.
    pub fn new() -> (r: Self)
        ensures
            r.wf(),
            r.spec_threads().len() == 0,
            r.spec_ready().len() == 0,
            r.spec_current() is None,
            r.spec_next_id() == 1,
            r.spec_switches() == 0,
            !r.spec_preemption(),
            r.spec_quantum() == DEFAULT_QUANTUM,
            r.spec_remaining() == DEFAULT_QUANTUM,
    {
        Scheduler {
            threads: Vec::new(),
            ready_queue: VecDeque::new(),
            current_thread: None,
            next_thread_id: 1,
            context_switches: 0,
            preemption_enabled: false,
            time_quantum: DEFAULT_QUANTUM,
            quantum_remaining: DEFAULT_QUANTUM,
        }
    }

    fn index_of(&self, id: ThreadId) -> (r: Option<usize>)
        ensures
            match r {
                Some(i) => thread_index(self.threads@, id.0) == Some(i as int) && i < self.threads@.len(),
                None => thread_index(self.threads@, id.0) is None,
            },
    {
        let mut i: usize = 0;
        while i < self.threads.len()
            invariant
                i <= self.threads@.len(),
                thread_index_from(self.threads@, id.0, 0) == thread_index_from(self.threads@, id.0, i as int),
            decreases self.threads@.len() - i,
        {
            if self.threads[i].id.0 == id.0 {
                return Some(i);
            }
            i = i + 1;
        }
        None
    }

    /// Add a thread that is ready to run; it gets the next identifier and joins the
    /// back of the ready queue.
    fn add_thread(&mut self, thread: Thread) -> (r: ThreadId)
        requires
            old(self).wf(),
            old(self).spec_next_id() < u64::MAX,
            thread.id.0 == old(self).spec_next_id(),
            thread.state == ThreadState::Resting,
        ensures
            final(self).wf(),
            r == thread.id,
            final(self).spec_threads() == old(self).spec_threads().push(thread),
            final(self).spec_ready() == old(self).spec_ready().push(thread.id),
            final(self).spec_next_id() == old(self).spec_next_id() + 1,
            final(self).spec_current() == old(self).spec_current(),
            final(self).spec_switches() == old(self).spec_switches(),
            final(self).spec_preemption() == old(self).spec_preemption(),
            final(self).spec_quantum() == old(self).spec_quantum(),
            final(self).spec_remaining() == old(self).spec_remaining(),
    {
        let id = thread.id;
        let ghost ts0 = self.threads@;
        proof {
            lemma_index_absent(ts0, id.0, 0);
        }
        self.next_thread_id = self.next_thread_id + 1;
        self.threads.push(thread);
        self.ready_queue.push_back(id);
        proof {
            let ts = self.threads@;
            lemma_index_push(ts0, thread, id.0);
            assert forall|k: int| 0 <= k < self.ready_queue@.len() implies runnable(
                ts,
                #[trigger] self.ready_queue@[k],
            ) by {
                let q = self.ready_queue@[k];
                if k < self.ready_queue@.len() - 1 {
                    assert(q == old(self).ready_queue@[k]);
                    assert(runnable(ts0, old(self).ready_queue@[k]));
                    lemma_index_push(ts0, thread, q.0);
                    lemma_index_found(ts0, q.0, 0);
                    let j = thread_index(ts0, q.0)->0;
                    assert(ts[j] == ts0[j]);
                } else {
                    assert(q == id);
                }
            }
            if self.current_thread is Some {
                let c = self.current_thread->0;
                lemma_index_push(ts0, thread, c.0);
            }
        }
        id
    }

    /// Spawn a kernel thread at `entry_point` on the stack `[stack_bottom, stack_top)`.
    /// Fails with `OutOfThreads` once `MAX_THREADS` threads exist.
    pub fn spawn(&mut self, entry_point: u64, priority: ThreadPriority, stack_bottom: u64, stack_top: u64) -> (r:
        Result<ThreadId, LoomError>)
        requires
            old(self).wf(),
            old(self).spec_next_id() < u64::MAX,
        ensures
            final(self).wf(),
            old(self).spec_threads().len() >= MAX_THREADS ==> r == Err::<ThreadId, LoomError>(
                LoomError::OutOfThreads,
            ) && *final(self) == *old(self),
            old(self).spec_threads().len() < MAX_THREADS ==> {
                let id = ThreadId(old(self).spec_next_id());
                let t = final(self).spec_threads().last();
                &&& r == Ok::<ThreadId, LoomError>(id)
                &&& final(self).spec_threads().drop_last() == old(self).spec_threads()
                &&& final(self).spec_threads().len() == old(self).spec_threads().len() + 1
                &&& t.id == id && t.state == ThreadState::Resting && t.priority == priority
                &&& t.stack_bottom == stack_bottom && t.stack_top == stack_top && t.vessel_id is None
                &&& t.context.rip == entry_point && t.context.rsp == stack_top
                &&& final(self).spec_ready() == old(self).spec_ready().push(id)
                &&& final(self).spec_next_id() == old(self).spec_next_id() + 1
                &&& final(self).spec_current() == old(self).spec_current()
            },
    {
        if self.threads.len() >= MAX_THREADS {
            return Err(LoomError::OutOfThreads);
        }
        let thread_id = ThreadId(self.next_thread_id);
        let thread = Thread::new(thread_id, entry_point, priority, stack_bottom, stack_top, None);
        let id = self.add_thread(thread);
        proof {
            assert(self.threads@.drop_last() =~= old(self).threads@);
        }
        Ok(id)
    }

    /// Add a thread with a prepared context (a user or service thread of a Vessel);
    /// it gets the next identifier and joins the back of the ready queue.
    pub fn spawn_with_context(&mut self, context: ThreadContext, priority: ThreadPriority, vessel_id: Option<
        VesselId,
    >) -> (r: ThreadId)
        requires
            old(self).wf(),
            old(self).spec_next_id() < u64::MAX,
        ensures
            final(self).wf(),
            ({
                let id = ThreadId(old(self).spec_next_id());
                let t = final(self).spec_threads().last();
                &&& r == id
                &&& final(self).spec_threads().drop_last() == old(self).spec_threads()
                &&& final(self).spec_threads().len() == old(self).spec_threads().len() + 1
                &&& t.id == id && t.state == ThreadState::Resting && t.priority == priority
                &&& t.context == context && t.vessel_id == vessel_id
                &&& final(self).spec_ready() == old(self).spec_ready().push(id)
                &&& final(self).spec_next_id() == old(self).spec_next_id() + 1
                &&& final(self).spec_current() == old(self).spec_current()
            }),
    {
        let thread_id = ThreadId(self.next_thread_id);
        let thread = Thread::new_with_context(thread_id, context, priority, vessel_id);
        let id = self.add_thread(thread);
        proof {
            assert(self.threads@.drop_last() =~= old(self).threads@);
        }
        id
    }

    /// Take the next thread to run from the front of the ready queue, skipping any
    /// entry whose thread is gone or fading away.
    ///
    /// Queued threads always exist and are never fading, so this is the front of
    /// the queue.
    fn select_next_thread(&mut self) -> (r: Option<ThreadId>)
        requires
            old(self).wf(),
        ensures
            final(self).wf(),
            final(self).spec_threads() == old(self).spec_threads(),
            final(self).spec_current() == old(self).spec_current(),
            final(self).spec_next_id() == old(self).spec_next_id(),
            final(self).spec_switches() == old(self).spec_switches(),
            final(self).spec_preemption() == old(self).spec_preemption(),
            final(self).spec_quantum() == old(self).spec_quantum(),
            final(self).spec_remaining() == old(self).spec_remaining(),
            old(self).spec_ready().len() == 0 ==> r is None && final(self).spec_ready() == old(self).spec_ready(),
            old(self).spec_ready().len() > 0 ==> r == Some(old(self).spec_ready()[0]) && final(self).spec_ready() == old(self).spec_ready().drop_first(),
    {
        while self.ready_queue.len() > 0
            invariant
                self.wf(),
                self.threads@ == old(self).threads@,
                self.current_thread == old(self).current_thread,
                self.next_thread_id == old(self).next_thread_id,
                self.context_switches == old(self).context_switches,
                self.preemption_enabled == old(self).preemption_enabled,
                self.time_quantum == old(self).time_quantum,
                self.quantum_remaining == old(self).quantum_remaining,
                self.ready_queue@ == old(self).ready_queue@,
            decreases self.ready_queue@.len(),
        {
            let ghost q0 = self.ready_queue@;
            let next_id = match self.ready_queue.pop_front() {
                Some(x) => x,
                None => {
                    return None;
                },
            };
            assert(runnable(self.threads@, q0[0]));
            proof {
                assert forall|k: int| 0 <= k < self.ready_queue@.len() implies runnable(
                    self.threads@,
                    #[trigger] self.ready_queue@[k],
                ) by {
                    assert(self.ready_queue@[k] == q0[k + 1]);
                }
            }
            match self.index_of(next_id) {
                Some(i) => {
                    if self.threads[i].state != ThreadState::Fading {
                        assert(self.ready_queue@ =~= q0.drop_first());
                        return Some(next_id);
                    }
                },
                None => {},
            }
            assert(false);
        }
        None
    }

    /// Prepare a yield: take the next thread from the ready queue and, when a
    /// different thread is running, switch to it.
    ///
    /// The running thread counts a yield; unless it is fading away it becomes
    /// Resting and goes to the back of the queue. The next thread becomes Weaving,
    /// counts a time slice and records `now` as its start. Returns the switch to
    /// perform, or `None` when the queue is empty (nothing changes) or no other
    /// thread is running (the taken thread leaves the queue and nothing else changes).
    pub fn prepare_yield(&mut self, now: u64) -> (r: Option<SwitchPlan>)
        requires
            old(self).wf(),
            old(self).spec_switches() < u64::MAX,
            forall|i: int|
                0 <= i < old(self).spec_threads().len() ==> (#[trigger] old(self).spec_threads()[i]).yields
                    < u64::MAX && old(self).spec_threads()[i].time_slices_used < u64::MAX,
        ensures
            final(self).wf(),
            final(self).spec_next_id() == old(self).spec_next_id(),
            final(self).spec_preemption() == old(self).spec_preemption(),
            final(self).spec_quantum() == old(self).spec_quantum(),
            final(self).spec_remaining() == old(self).spec_remaining(),
            final(self).spec_threads().len() == old(self).spec_threads().len(),
            ({
                let ts = old(self).spec_threads();
                let q = old(self).spec_ready();
                if q.len() == 0 {
                    r is None && *final(self) == *old(self)
                } else if !(old(self).spec_current() matches Some(c) && c != q[0]) {
                    &&& r is None
                    &&& final(self).spec_threads() == ts
                    &&& final(self).spec_ready() == q.drop_first()
                    &&& final(self).spec_current() == old(self).spec_current()
                    &&& final(self).spec_switches() == old(self).spec_switches()
                } else {
                    let c = old(self).spec_current()->0;
                    let next = q[0];
                    let ci = thread_index(ts, c.0)->0;
                    let ni = thread_index(ts, next.0)->0;
                    let fading = ts[ci].state == ThreadState::Fading;
                    let t1 = final(self).spec_threads();
                    &&& r == Some(
                        SwitchPlan { from: c, to: next, next_sigil: ts[ni].sigil, to_vessel: ts[ni].vessel_id },
                    )
                    &&& final(self).spec_current() == Some(next)
                    &&& final(self).spec_switches() == old(self).spec_switches() + 1
                    &&& final(self).spec_ready() == (if fading {
                        q.drop_first()
                    } else {
                        q.drop_first().push(c)
                    })
                    &&& t1[ci].state == (if fading {
                        ThreadState::Fading
                    } else {
                        ThreadState::Resting
                    })
                    &&& t1[ci].yields == ts[ci].yields + 1
                    &&& t1[ci].time_slices_used == ts[ci].time_slices_used
                    &&& t1[ci].id == c && t1[ci].sigil == ts[ci].sigil && t1[ci].vessel_id == ts[ci].vessel_id
                    &&& t1[ni].state == ThreadState::Weaving
                    &&& t1[ni].time_slices_used == ts[ni].time_slices_used + 1
                    &&& t1[ni].yields == ts[ni].yields
                    &&& t1[ni].last_run_time == now
                    &&& t1[ni].id == next && t1[ni].sigil == ts[ni].sigil && t1[ni].vessel_id == ts[ni].vessel_id
                    &&& forall|k: int| 0 <= k < ts.len() && k != ci && k != ni ==> t1[k] == ts[k]
                }
            }),
    {
        if self.ready_queue.len() == 0 {
            return None;
        }
        let next_id = match self.select_next_thread() {
            None => return None,
            Some(id) => id,
        };
        let current_id = match self.current_thread {
            None => return None,
            Some(c) => c,
        };
        if current_id == next_id {
            return None;
        }
        let ghost ts0 = self.threads@;
        let ghost mid = *self;
        assert(mid.wf());
        let ci = match self.index_of(current_id) {
            Some(i) => i,
            None => {
                assert(false);
                return None;
            },
        };
        let ni = match self.index_of(next_id) {
            Some(i) => i,
            None => {
                assert(false);
                return None;
            },
        };
        proof {
            lemma_index_distinct(ts0, current_id.0, next_id.0);
        }
        // The running thread gives up the CPU.
        self.threads[ci].record_yield();
        let fading = self.threads[ci].state == ThreadState::Fading;
        if !fading {
            self.threads[ci].set_state(ThreadState::Resting);
        }
        // The next thread takes over.
        self.threads[ni].set_state(ThreadState::Weaving);
        self.threads[ni].record_time_slice();
        self.threads[ni].last_run_time = now;
        let ghost q1 = self.ready_queue@;
        proof {
            lemma_ids_kept(ts0, self.threads@);
            assert forall|k: int| 0 <= k < q1.len() implies runnable(self.threads@, #[trigger] q1[k]) by {
                let x = q1[k];
                assert(x == mid.ready_queue@[k]);
                assert(runnable(ts0, mid.ready_queue@[k]));
                lemma_index_found(ts0, x.0, 0);
                let j = thread_index(ts0, x.0)->0;
                assert(thread_index(self.threads@, x.0) == Some(j));
                if j != ci as int && j != ni as int {
                    assert(self.threads@[j] == ts0[j]);
                }
            }
        }
        if !fading {
            self.ready_queue.push_back(current_id);
            proof {
                assert forall|k: int| 0 <= k < self.ready_queue@.len() implies runnable(
                    self.threads@,
                    #[trigger] self.ready_queue@[k],
                ) by {
                    if k < q1.len() {
                        assert(self.ready_queue@[k] == q1[k]);
                    }
                }
            }
        }
        let next_sigil = self.threads[ni].sigil;
        let to_vessel = self.threads[ni].vessel_id;
        self.current_thread = Some(next_id);
        self.context_switches = self.context_switches + 1;
        proof {
            assert(q1 == old(self).ready_queue@.drop_first());
            assert(self.threads@[ci as int].yields == ts0[ci as int].yields + 1);
            assert(self.threads@[ni as int].state == ThreadState::Weaving);
            assert(forall|k: int| 0 <= k < ts0.len() && k != ci && k != ni ==> self.threads@[k] == ts0[k]);
            let ts = old(self).threads@;
            assert(ts0 == ts);
            assert(thread_index(ts, current_id.0) == Some(ci as int));
            assert(thread_index(ts, next_id.0) == Some(ni as int));
            assert(next_id == old(self).ready_queue@[0]);
            assert(self.threads@[ci as int].state == (if fading { ThreadState::Fading } else { ThreadState::Resting }));
            assert(fading == (ts[ci as int].state == ThreadState::Fading));
            assert(self.threads@[ni as int].time_slices_used == ts[ni as int].time_slices_used + 1);
            assert(self.threads@[ni as int].yields == ts[ni as int].yields);
            assert(self.threads@[ni as int].last_run_time == now);
            assert(self.threads@[ci as int].sigil == ts[ci as int].sigil);
            assert(self.threads@[ni as int].sigil == ts[ni as int].sigil);
            assert(next_sigil == ts[ni as int].sigil);
            lemma_index_found(ts, current_id.0, 0);
            lemma_index_found(ts, next_id.0, 0);
            assert(self.threads@[ci as int].id == current_id);
            assert(self.threads@[ni as int].id == next_id);
        }
        Some(SwitchPlan { from: current_id, to: next_id, next_sigil, to_vessel })
    }

    /// Reorder the ready queue by a score per queued thread (`keys[k]` for the
    /// thread at position `k`): highest score first, equal scores in queue order.
    /// Nothing else changes.
    pub fn rebalance_ready_queue(&mut self, keys: &Vec<u32>)
        requires
            old(self).wf(),
            keys@.len() == old(self).spec_ready().len(),
        ensures
            final(self).wf(),
            final(self).spec_ready() == rebalanced(old(self).spec_ready(), keys@),
            final(self).spec_ready().to_multiset() == old(self).spec_ready().to_multiset(),
            final(self).spec_threads() == old(self).spec_threads(),
            final(self).spec_current() == old(self).spec_current(),
            final(self).spec_next_id() == old(self).spec_next_id(),
            final(self).spec_switches() == old(self).spec_switches(),
            final(self).spec_preemption() == old(self).spec_preemption(),
            final(self).spec_quantum() == old(self).spec_quantum(),
            final(self).spec_remaining() == old(self).spec_remaining(),
    {
        let n = self.ready_queue.len();
        let ghost q = self.ready_queue@;
        let ghost pairs = Seq::new(q.len(), |i: int| (q[i], keys@[i]));
        let mut sorted: Vec<(ThreadId, u32)> = Vec::new();
        let mut i: usize = 0;
        while i < n
            invariant
                n == q.len(),
                i <= n,
                self.ready_queue@ == q,
                keys@.len() == n,
                pairs == Seq::new(q.len(), |i: int| (q[i], keys@[i])),
                sorted@ == sort_by_key_desc(pairs.take(i as int)),
                sorted@.len() == i,
                forall|k: int| 0 <= k < sorted@.len() ==> exists|j: int| 0 <= j < i && #[trigger] sorted@[k] == pairs[j],
            decreases n - i,
        {
            let x = (self.ready_queue[i], keys[i]);
            let mut j: usize = 0;
            while j < sorted.len() && sorted[j].1 >= x.1
                invariant
                    j <= sorted@.len(),
                    first_below(sorted@, x.1, 0) == first_below(sorted@, x.1, j as int),
                decreases sorted@.len() - j,
            {
                j = j + 1;
            }
            let ghost before = sorted@;
            proof {
                assert(pairs.take(i as int + 1).drop_last() =~= pairs.take(i as int));
                assert(pairs.take(i as int + 1).last() == x);
            }
            sorted.insert(j, x);
            proof {
                assert forall|k: int| 0 <= k < sorted@.len() implies exists|jj: int| 0 <= jj < i + 1 && #[trigger] sorted@[k] == pairs[jj] by {
                    if k < j {
                        assert(sorted@[k] == before[k]);
                    } else if k == j {
                        assert(sorted@[k] == pairs[i as int]);
                    } else {
                        assert(sorted@[k] == before[k - 1]);
                    }
                }
            }
            i = i + 1;
        }
        proof {
            assert(pairs.take(n as int) =~= pairs);
        }
        let mut queue: VecDeque<ThreadId> = VecDeque::new();
        let mut k: usize = 0;
        while k < n
            invariant
                k <= n,
                sorted@.len() == n,
                queue@ == sorted@.take(k as int).map_values(|p: (ThreadId, u32)| p.0),
            decreases n - k,
        {
            queue.push_back(sorted[k].0);
            proof {
                assert(sorted@.take(k as int + 1).map_values(|p: (ThreadId, u32)| p.0) =~= sorted@.take(k as int).map_values(
                    |p: (ThreadId, u32)| p.0,
                ).push(sorted@[k as int].0));
            }
            k = k + 1;
        }
        proof {
            assert(sorted@.take(n as int) =~= sorted@);
            assert forall|m: int| 0 <= m < queue@.len() implies runnable(self.threads@, #[trigger] queue@[m]) by {
                assert(queue@[m] == sorted@[m].0);
                let jj = choose|jj: int| 0 <= jj < n && #[trigger] sorted@[m] == pairs[jj];
                assert(queue@[m] == q[jj]);
            }
        }
        self.ready_queue = queue;
        proof {
            lemma_rebalance_keeps_threads(q, keys@);
        }
    }

    /// The ready queue, front first.
    pub fn ready_threads(&self) -> (r: Vec<ThreadId>)
        ensures
            r@ == self.spec_ready(),
    {
        let mut r: Vec<ThreadId> = Vec::new();
        let mut i: usize = 0;
        while i < self.ready_queue.len()
            invariant
                i <= self.ready_queue@.len(),
                r@ == self.ready_queue@.take(i as int),
            decreases self.ready_queue@.len() - i,
        {
            r.push(self.ready_queue[i]);
            proof {
                assert(self.ready_queue@.take(i as int + 1) =~= self.ready_queue@.take(i as int).push(self.ready_queue@[i as int]));
            }
            i = i + 1;
        }
        proof {
            assert(self.ready_queue@.take(i as int) =~= self.ready_queue@);
        }
        r
    }

    /// Find a thread by identifier.
    pub fn find_thread(&self, id: ThreadId) -> (r: Option<&Thread>)
        ensures
            match thread_index(self.spec_threads(), id.0) {
                Some(i) => r == Some(&self.spec_threads()[i]),
                None => r is None,
            },
    {
        match self.index_of(id) {
            Some(i) => Some(&self.threads[i]),
            None => None,
        }
    }

    /// The saved CPU state of a thread.
    pub fn get_thread_context(&self, id: ThreadId) -> (r: Option<&ThreadContext>)
        ensures
            match thread_index(self.spec_threads(), id.0) {
                Some(i) => r == Some(&self.spec_threads()[i].context),
                None => r is None,
            },
    {
        match self.index_of(id) {
            Some(i) => Some(&self.threads[i].context),
            None => None,
        }
    }

    /// The running thread.
    pub fn current_thread_id(&self) -> (r: Option<ThreadId>)
        ensures
            r == self.spec_current(),
    {
        self.current_thread
    }

    /// Thread counts by state and the number of context switches.
    pub fn stats(&self) -> (r: SchedulerStats)
        ensures
            r.total_threads == self.spec_threads().len(),
            r.weaving_threads == count_in_state(self.spec_threads(), ThreadState::Weaving, self.spec_threads().len() as int),
            r.resting_threads == count_in_state(self.spec_threads(), ThreadState::Resting, self.spec_threads().len() as int),
            r.tangled_threads == count_in_state(self.spec_threads(), ThreadState::Tangled, self.spec_threads().len() as int),
            r.context_switches == self.spec_switches(),
    {
        SchedulerStats {
            total_threads: self.threads.len(),
            weaving_threads: self.count_state(ThreadState::Weaving),
            resting_threads: self.count_state(ThreadState::Resting),
            tangled_threads: self.count_state(ThreadState::Tangled),
            context_switches: self.context_switches,
        }
    }

    fn count_state(&self, state: ThreadState) -> (r: usize)
        ensures
            r == count_in_state(self.threads@, state, self.threads@.len() as int),
    {
        let mut n: usize = 0;
        let mut i: usize = 0;
        while i < self.threads.len()
            invariant
                i <= self.threads@.len(),
                n == count_in_state(self.threads@, state, i as int),
                n <= i,
            decreases self.threads@.len() - i,
        {
            if self.threads[i].state == state {
                n = n + 1;
            }
            i = i + 1;
        }
        n
    }

    /// Debug information about every thread that is not fading away, in order.
    /// All threads, in the order they were created.
    pub fn threads(&self) -> (r: &[Thread])
        ensures
            r@ == self.spec_threads(),
    {
        self.threads.as_slice()
    }

    pub fn thread_debug_info(&self) -> (r: Vec<ThreadDebugInfo>)
        ensures
            r@ == debug_infos(self.spec_threads(), self.spec_threads().len() as int),
    {
        let mut out: Vec<ThreadDebugInfo> = Vec::new();
        let mut i: usize = 0;
        while i < self.threads.len()
            invariant
                i <= self.threads@.len(),
                out@ == debug_infos(self.threads@, i as int),
            decreases self.threads@.len() - i,
        {
            let t = &self.threads[i];
            if t.state != ThreadState::Fading {
                let stack_size = if t.stack_top >= t.stack_bottom {
                    t.stack_top - t.stack_bottom
                } else {
                    0
                };
                out.push(
                    ThreadDebugInfo {
                        id: t.id.0,
                        stack_bottom: t.stack_bottom,
                        stack_top: t.stack_top,
                        stack_size,
                        state: t.state,
                        priority: t.priority,
                    },
                );
            }
            i = i + 1;
        }
        out
    }

    /// Make `thread_id` the running thread before the first switch: it leaves the
    /// ready queue and becomes Weaving.
    pub fn prepare_handoff(&mut self, thread_id: ThreadId)
        requires
            old(self).wf(),
            thread_index(old(self).spec_threads(), thread_id.0) is Some,
        ensures
            final(self).wf(),
            final(self).spec_current() == Some(thread_id),
            final(self).spec_ready() == without(old(self).spec_ready(), thread_id),
            ({
                let i = thread_index(old(self).spec_threads(), thread_id.0)->0;
                &&& final(self).spec_threads().len() == old(self).spec_threads().len()
                &&& final(self).spec_threads()[i].state == ThreadState::Weaving
                &&& same_but_state(final(self).spec_threads()[i], old(self).spec_threads()[i])
                &&& forall|k: int|
                    0 <= k < old(self).spec_threads().len() && k != i ==> final(self).spec_threads()[k]
                        == old(self).spec_threads()[k]
            }),
    {
        self.remove_from_queue(thread_id);
        self.current_thread = Some(thread_id);
        let i = match self.index_of(thread_id) {
            Some(i) => i,
            None => {
                assert(false);
                return;
            },
        };
        let ghost ts0 = self.threads@;
        let ghost q = self.ready_queue@;
        let ghost mid = *self;
        assert(mid.wf());
        self.threads[i].set_state(ThreadState::Weaving);
        proof {
            lemma_ids_kept(ts0, self.threads@);
            assert forall|k: int| 0 <= k < q.len() implies runnable(self.threads@, #[trigger] q[k]) by {
                assert(q[k] != thread_id) by {
                    lemma_without_excludes(old(self).ready_queue@, thread_id, k);
                }
                assert(runnable(ts0, mid.ready_queue@[k]));
                lemma_index_distinct(ts0, q[k].0, thread_id.0);
                lemma_index_found(ts0, q[k].0, 0);
                let j = thread_index(ts0, q[k].0)->0;
                assert(self.threads@[j] == ts0[j]);
            }
        }
    }

    /// Remove every occurrence of `id` from the ready queue.
    fn remove_from_queue(&mut self, id: ThreadId)
        requires
            old(self).wf(),
        ensures
            final(self).wf(),
            final(self).spec_ready() == without(old(self).spec_ready(), id),
            final(self).spec_threads() == old(self).spec_threads(),
            final(self).spec_current() == old(self).spec_current(),
            final(self).spec_next_id() == old(self).spec_next_id(),
            final(self).spec_switches() == old(self).spec_switches(),
            final(self).spec_preemption() == old(self).spec_preemption(),
            final(self).spec_quantum() == old(self).spec_quantum(),
            final(self).spec_remaining() == old(self).spec_remaining(),
    {
        let ghost q0 = self.ready_queue@;
        let mut kept: VecDeque<ThreadId> = VecDeque::new();
        let mut i: usize = 0;
        while i < self.ready_queue.len()
            invariant
                i <= q0.len(),
                self.ready_queue@ == q0,
                kept@ == without(q0.subrange(0, i as int), id),
            decreases q0.len() - i,
        {
            let x = self.ready_queue[i];
            proof {
                assert(q0.subrange(0, i as int + 1).drop_last() =~= q0.subrange(0, i as int));
            }
            if x != id {
                kept.push_back(x);
            }
            i = i + 1;
        }
        proof {
            assert(q0.subrange(0, q0.len() as int) =~= q0);
        }
        self.ready_queue = kept;
        proof {
            assert forall|k: int| 0 <= k < self.ready_queue@.len() implies runnable(
                self.threads@,
                #[trigger] self.ready_queue@[k],
            ) by {
                lemma_without_member(q0, id, k);
                let j = choose|j: int| 0 <= j < q0.len() && q0[j] == without(q0, id)[k];
                assert(runnable(self.threads@, q0[j]));
            }
        }
    }

    /// Mark a thread as fading away and take it off the ready queue; it is never
    /// scheduled again. Fails with `ThreadNotFound` for an unknown identifier.
    pub fn terminate_thread(&mut self, thread_id: ThreadId) -> (r: Result<(), LoomError>)
        requires
            old(self).wf(),
        ensures
            final(self).wf(),
            terminate_effect(*old(self), *final(self), thread_id),
            match thread_index(old(self).spec_threads(), thread_id.0) {
                None => r == Err::<(), LoomError>(LoomError::ThreadNotFound) && *final(self) == *old(self),
                Some(i) => {
                    &&& r == Ok::<(), LoomError>(())
                    &&& final(self).spec_ready() == without(old(self).spec_ready(), thread_id)
                    &&& final(self).spec_current() == old(self).spec_current()
                    &&& final(self).spec_threads().len() == old(self).spec_threads().len()
                    &&& final(self).spec_threads()[i].state == ThreadState::Fading
                    &&& same_but_state(final(self).spec_threads()[i], old(self).spec_threads()[i])
                    &&& forall|k: int|
                        0 <= k < old(self).spec_threads().len() && k != i ==> final(self).spec_threads()[k]
                            == old(self).spec_threads()[k]
                },
            },
    {
        let i = match self.index_of(thread_id) {
            None => return Err(LoomError::ThreadNotFound),
            Some(i) => i,
        };
        self.remove_from_queue(thread_id);
        let ghost ts0 = self.threads@;
        let ghost q = self.ready_queue@;
        let ghost mid = *self;
        assert(mid.wf());
        self.threads[i].set_state(ThreadState::Fading);
        proof {
            lemma_ids_kept(ts0, self.threads@);
            assert forall|k: int| 0 <= k < q.len() implies runnable(self.threads@, #[trigger] q[k]) by {
                assert(q[k] != thread_id) by {
                    lemma_without_excludes(old(self).ready_queue@, thread_id, k);
                }
                assert(runnable(ts0, mid.ready_queue@[k]));
                lemma_index_distinct(ts0, q[k].0, thread_id.0);
                lemma_index_found(ts0, q[k].0, 0);
                let j = thread_index(ts0, q[k].0)->0;
                assert(self.threads@[j] == ts0[j]);
            }
        }
        Ok(())
    }

    /// Turn on preemption with a quantum of `quantum_ms` ticks, starting a fresh quantum.
    pub fn enable_preemption(&mut self, quantum_ms: u64)
        ensures
            final(self).spec_preemption(),
            final(self).spec_quantum() == quantum_ms,
            final(self).spec_remaining() == quantum_ms,
            final(self).spec_threads() == old(self).spec_threads(),
            final(self).spec_ready() == old(self).spec_ready(),
            final(self).spec_current() == old(self).spec_current(),
            final(self).spec_next_id() == old(self).spec_next_id(),
            final(self).spec_switches() == old(self).spec_switches(),
    {
        self.preemption_enabled = true;
        self.time_quantum = quantum_ms;
        self.quantum_remaining = quantum_ms;
    }

    /// Return to cooperative scheduling.
    pub fn disable_preemption(&mut self)
        ensures
            !final(self).spec_preemption(),
            final(self).spec_quantum() == old(self).spec_quantum(),
            final(self).spec_remaining() == old(self).spec_remaining(),
            final(self).spec_threads() == old(self).spec_threads(),
            final(self).spec_ready() == old(self).spec_ready(),
            final(self).spec_current() == old(self).spec_current(),
            final(self).spec_next_id() == old(self).spec_next_id(),
            final(self).spec_switches() == old(self).spec_switches(),
    {
        self.preemption_enabled = false;
    }

    /// Whether the running thread's quantum is used up; if so a fresh quantum starts.
    /// Always false in cooperative mode.
    pub fn should_preempt(&mut self) -> (r: bool)
        ensures
            r == (old(self).spec_preemption() && old(self).spec_remaining() == 0),
            final(self).spec_remaining() == (if r {
                old(self).spec_quantum()
            } else {
                old(self).spec_remaining()
            }),
            final(self).spec_preemption() == old(self).spec_preemption(),
            final(self).spec_quantum() == old(self).spec_quantum(),
            final(self).spec_threads() == old(self).spec_threads(),
            final(self).spec_ready() == old(self).spec_ready(),
            final(self).spec_current() == old(self).spec_current(),
            final(self).spec_next_id() == old(self).spec_next_id(),
            final(self).spec_switches() == old(self).spec_switches(),
    {
        if !self.preemption_enabled {
            return false;
        }
        if self.quantum_remaining == 0 {
            self.quantum_remaining = self.time_quantum;
            return true;
        }
        false
    }

    /// Count one timer tick against the running thread's quantum (preemptive mode only).
    pub fn tick_quantum(&mut self)
        ensures
            final(self).spec_remaining() == (if old(self).spec_preemption() && old(self).spec_remaining() > 0 {
                old(self).spec_remaining() - 1
            } else {
                old(self).spec_remaining() as int
            }),
            final(self).spec_preemption() == old(self).spec_preemption(),
            final(self).spec_quantum() == old(self).spec_quantum(),
            final(self).spec_threads() == old(self).spec_threads(),
            final(self).spec_ready() == old(self).spec_ready(),
            final(self).spec_current() == old(self).spec_current(),
            final(self).spec_next_id() == old(self).spec_next_id(),
            final(self).spec_switches() == old(self).spec_switches(),
    {
        if self.preemption_enabled && self.quantum_remaining > 0 {
            self.quantum_remaining = self.quantum_remaining - 1;
        }
    }

    /// Whether preemption is on.
    pub fn is_preemption_enabled(&self) -> (r: bool)
        ensures
            r == self.spec_preemption(),
    {
        self.preemption_enabled
    }

    /// The time quantum in ticks.
    pub fn get_time_quantum(&self) -> (r: u64)
        ensures
            r == self.spec_quantum(),
    {
        self.time_quantum
    }
}

/// A thread that is fading away (after `terminate_thread` or an exit) is not in the
/// ready queue, so no later `prepare_yield` selects it.
pub proof fn lemma_fading_never_queued(s: Scheduler, t: ThreadId)
    requires
        s.wf(),
        thread_index(s.spec_threads(), t.0) matches Some(i) && s.spec_threads()[i].state == ThreadState::Fading,
    ensures
        !s.spec_ready().contains(t),
{
    if s.spec_ready().contains(t) {
        let k = choose|k: int| 0 <= k < s.spec_ready().len() && s.spec_ready()[k] == t;
        assert(runnable(s.threads@, s.ready_queue@[k]));
    }
}

/// A search that comes back empty finds the identifier nowhere at or after `start`.
proof fn lemma_index_absent(ts: Seq<Thread>, id: u64, start: int)
    requires
        0 <= start,
        forall|i: int| 0 <= i < ts.len() ==> ts[i].id.0 != id,
    ensures
        thread_index_from(ts, id, start) is None,
    decreases ts.len() - start,
{
    if start < ts.len() {
        lemma_index_absent(ts, id, start + 1);
    }
}

/// Appending a thread keeps every earlier answer of the search and finds the new
/// thread when nothing before it carries its identifier.
proof fn lemma_index_push(ts: Seq<Thread>, t: Thread, id: u64)
    ensures
        thread_index(ts, id) is Some ==> thread_index(ts.push(t), id) == thread_index(ts, id),
        thread_index(ts, id) is None && t.id.0 == id ==> thread_index(ts.push(t), id) == Some(ts.len() as int),
        thread_index(ts, id) is None && t.id.0 != id ==> thread_index(ts.push(t), id) is None,
{
    lemma_index_push_from(ts, t, id, 0);
}

proof fn lemma_index_push_from(ts: Seq<Thread>, t: Thread, id: u64, start: int)
    requires
        0 <= start <= ts.len(),
    ensures
        thread_index_from(ts, id, start) is Some ==> thread_index_from(ts.push(t), id, start)
            == thread_index_from(ts, id, start),
        thread_index_from(ts, id, start) is None && t.id.0 == id ==> thread_index_from(ts.push(t), id, start)
            == Some(ts.len() as int),
        thread_index_from(ts, id, start) is None && t.id.0 != id ==> thread_index_from(ts.push(t), id, start)
            is None,
    decreases ts.len() - start,
{
    if start < ts.len() {
        assert(ts.push(t)[start] == ts[start]);
        lemma_index_push_from(ts, t, id, start + 1);
    } else {
        assert(ts.push(t)[start] == t);
        assert(thread_index_from(ts.push(t), id, start + 1) is None);
    }
}

/// The search finds a thread carrying the identifier.
proof fn lemma_index_found(ts: Seq<Thread>, id: u64, start: int)
    requires
        0 <= start,
    ensures
        thread_index_from(ts, id, start) matches Some(i) ==> start <= i < ts.len() && ts[i].id.0 == id,
    decreases ts.len() - start,
{
    if start < ts.len() {
        lemma_index_found(ts, id, start + 1);
    }
}

/// Different identifiers are found at different positions.
proof fn lemma_index_distinct(ts: Seq<Thread>, a: u64, b: u64)
    ensures
        a != b && thread_index(ts, a) is Some && thread_index(ts, b) is Some ==> thread_index(ts, a)
            != thread_index(ts, b),
{
    lemma_index_found(ts, a, 0);
    lemma_index_found(ts, b, 0);
}

/// Two thread lists with the same identifiers position by position answer every
/// search alike.
proof fn lemma_ids_kept(ts0: Seq<Thread>, ts1: Seq<Thread>)
    requires
        ts0.len() == ts1.len(),
        forall|k: int| 0 <= k < ts0.len() ==> #[trigger] ts1[k].id == ts0[k].id,
    ensures
        forall|id: u64| #[trigger] thread_index(ts1, id) == thread_index(ts0, id),
{
    assert forall|id: u64| #[trigger] thread_index(ts1, id) == thread_index(ts0, id) by {
        lemma_ids_kept_from(ts0, ts1, id, 0);
    }
}

proof fn lemma_ids_kept_from(ts0: Seq<Thread>, ts1: Seq<Thread>, id: u64, start: int)
    requires
        ts0.len() == ts1.len(),
        0 <= start,
        forall|k: int| 0 <= k < ts0.len() ==> #[trigger] ts1[k].id == ts0[k].id,
    ensures
        thread_index_from(ts1, id, start) == thread_index_from(ts0, id, start),
    decreases ts0.len() - start,
{
    if start < ts0.len() {
        assert(ts1[start].id == ts0[start].id);
        lemma_ids_kept_from(ts0, ts1, id, start + 1);
    }
}

/// An entry kept by the filter is an entry of the original queue and is not `id`.
proof fn lemma_without_member(q: Seq<ThreadId>, id: ThreadId, k: int)
    requires
        0 <= k < without(q, id).len(),
    ensures
        exists|j: int| 0 <= j < q.len() && q[j] == without(q, id)[k],
        without(q, id)[k] != id,
    decreases q.len(),
{
    if q.len() > 0 {
        let w = without(q.drop_last(), id);
        if q.last() != id && k == w.len() {
            assert(q[q.len() - 1] == without(q, id)[k]);
        } else {
            lemma_without_member(q.drop_last(), id, k);
            let j = choose|j: int| 0 <= j < q.drop_last().len() && q.drop_last()[j] == w[k];
            assert(q[j] == without(q, id)[k]);
        }
    }
}

/// The filter leaves no occurrence of `id`.
proof fn lemma_without_excludes(q: Seq<ThreadId>, id: ThreadId, k: int)
    requires
        0 <= k < without(q, id).len(),
    ensures
        without(q, id)[k] != id,
{
    lemma_without_member(q, id, k);
}

} // verus!
