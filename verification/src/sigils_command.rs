//! The `sigils` shell command: which threads' stack canaries are shown, and
//! whether any two of them coincide.
use vstd::prelude::*;
use crate::loom_of_fate::thread::{Thread, ThreadState};

verus! {

/// Positions of the threads among the first `n` that are not fading.
pub open spec fn active_indices(ts: Seq<Thread>, n: int) -> Seq<usize>
    decreases n,
{
    if n <= 0 || n > ts.len() {
        Seq::empty()
    } else if ts[n - 1].state == ThreadState::Fading {
        active_indices(ts, n - 1)
    } else {
        active_indices(ts, n - 1).push((n - 1) as usize)
    }
}

/// The sigils of the threads that are not fading, in thread order.
pub open spec fn active_sigils_of(ts: Seq<Thread>) -> Seq<u64> {
    active_indices(ts, ts.len() as int).map_values(|i: usize| ts[i as int].sigil)
}

/// Number of entries that repeat an earlier entry.
pub open spec fn repeats(s: Seq<u64>) -> nat
    decreases s.len(),
{
    if s.len() == 0 {
        0
    } else {
        repeats(s.drop_last()) + if s.drop_last().contains(s.last()) {
            1nat
        } else {
            0nat
        }
    }
}

/// No two entries are equal.
pub open spec fn all_distinct(s: Seq<u64>) -> bool {
    forall|i: int, j: int| 0 <= i < j < s.len() ==> s[i] != s[j]
}

/// A sequence has no repeats exactly when its entries are distinct.
proof fn lemma_repeats_zero(s: Seq<u64>)
    ensures
        (repeats(s) == 0) <==> all_distinct(s),
    decreases s.len(),
{
    if s.len() > 0 {
        let p = s.drop_last();
        lemma_repeats_zero(p);
        if all_distinct(s) {
            assert(all_distinct(p)) by {
                assert forall|i: int, j: int| 0 <= i < j < p.len() implies p[i] != p[j] by {
                    assert(p[i] == s[i] && p[j] == s[j]);
                }
            }
            assert(!p.contains(s.last())) by {
                if p.contains(s.last()) {
                    let k = choose|k: int| 0 <= k < p.len() && p[k] == s.last();
                    assert(s[k] == s[s.len() - 1]);
                }
            }
        } else if repeats(s) == 0 {
            assert(all_distinct(p));
            assert(!p.contains(s.last()));
            assert forall|i: int, j: int| 0 <= i < j < s.len() implies s[i] != s[j] by {
                if j == s.len() - 1 {
                    assert(p[i] == s[i]);
                } else {
                    assert(p[i] == s[i] && p[j] == s[j]);
                }
            }
        }
    }
}

/// Positions of the threads that are not fading, in thread order.
pub fn active_thread_indices(threads: &[Thread]) -> (r: Vec<usize>)
    ensures
        r@ == active_indices(threads@, threads@.len() as int),
{
    let mut out: Vec<usize> = Vec::new();
    let mut i: usize = 0;
    while i < threads.len()
        invariant
            i <= threads@.len(),
            out@ == active_indices(threads@, i as int),
        decreases threads@.len() - i,
    {
        if threads[i].state != ThreadState::Fading {
            out.push(i);
        }
        i = i + 1;
    }
    out
}

/// Number of sigils of non-fading threads that repeat an earlier one; zero
/// exactly when those sigils are all distinct.
pub fn duplicate_sigils(threads: &[Thread]) -> (r: usize)
    ensures
        r == repeats(active_sigils_of(threads@)),
        (r == 0) <==> all_distinct(active_sigils_of(threads@)),
{
    let idx = active_thread_indices(threads);
    let mut sigils: Vec<u64> = Vec::new();
    let mut k: usize = 0;
    let total: usize = threads.len();
    proof {
        lemma_active_indices_bounded(threads@, total as int);
    }
    while k < idx.len()
        invariant
            k <= idx@.len(),
            idx@ == active_indices(threads@, threads@.len() as int),
            forall|m: int| 0 <= m < idx@.len() ==> (#[trigger] idx@[m]) < threads@.len(),
            sigils@ == idx@.subrange(0, k as int).map_values(|i: usize| threads@[i as int].sigil),
        decreases idx@.len() - k,
    {
        sigils.push(threads[idx[k]].sigil);
        assert(idx@.subrange(0, k as int + 1).map_values(|i: usize| threads@[i as int].sigil) =~= idx@.subrange(
            0,
            k as int,
        ).map_values(|i: usize| threads@[i as int].sigil).push(threads@[idx@[k as int] as int].sigil));
        k = k + 1;
    }
    assert(idx@.subrange(0, idx@.len() as int) =~= idx@);
    let mut count: usize = 0;
    let mut j: usize = 0;
    while j < sigils.len()
        invariant
            j <= sigils@.len(),
            count == repeats(sigils@.subrange(0, j as int)),
            count <= j,
        decreases sigils@.len() - j,
    {
        let mut seen = false;
        let mut i: usize = 0;
        while i < j
            invariant
                i <= j,
                j < sigils@.len(),
                seen <==> sigils@.subrange(0, i as int).contains(sigils@[j as int]),
            decreases j - i,
        {
            if sigils[i] == sigils[j] {
                seen = true;
            }
            proof {
                let before = sigils@.subrange(0, i as int);
                let after = sigils@.subrange(0, i as int + 1);
                assert(after =~= before.push(sigils@[i as int]));
                if before.contains(sigils@[j as int]) {
                    let w = choose|w: int| 0 <= w < before.len() && before[w] == sigils@[j as int];
                    assert(after[w] == sigils@[j as int]);
                }
                if sigils@[i as int] == sigils@[j as int] {
                    assert(after[i as int] == sigils@[j as int]);
                }
                if after.contains(sigils@[j as int]) && sigils@[i as int] != sigils@[j as int] {
                    let w = choose|w: int| 0 <= w < after.len() && after[w] == sigils@[j as int];
                    assert(before[w] == sigils@[j as int]);
                }
            }
            i = i + 1;
        }
        let ghost prefix = sigils@.subrange(0, j as int + 1);
        assert(prefix.drop_last() =~= sigils@.subrange(0, j as int));
        assert(prefix.last() == sigils@[j as int]);
        if seen {
            count = count + 1;
        }
        j = j + 1;
    }
    assert(sigils@.subrange(0, sigils@.len() as int) =~= sigils@);
    proof {
        lemma_repeats_zero(sigils@);
    }
    count
}

/// Every listed position is a position of the threads.
proof fn lemma_active_indices_bounded(ts: Seq<Thread>, n: int)
    requires
        n <= ts.len() <= usize::MAX,
    ensures
        forall|m: int|
            0 <= m < active_indices(ts, n).len() ==> (#[trigger] active_indices(ts, n)[m]) < n,
    decreases n,
{
    if n > 0 {
        lemma_active_indices_bounded(ts, n - 1);
        let prev = active_indices(ts, n - 1);
        assert forall|m: int| 0 <= m < active_indices(ts, n).len() implies (#[trigger] active_indices(ts, n)[m]) < n by {
            if m < prev.len() {
                assert(active_indices(ts, n)[m] == prev[m]);
            }
        }
    }
}

} // verus!
