//! The Harbor: the registry of Vessels (processes).
//!
//! Vessels are kept in the order they were moored; identifiers ("beacons") are
//! handed out in increasing order from 1 (0 is the kernel's).
use vstd::prelude::*;
use super::thread::ThreadId;
use super::vessel::{HarborStats, Vessel, VesselId, VesselState};

verus! {

/// Position of the first Vessel with beacon `id`, searching from `i`.
pub open spec fn vessel_index_from<A>(vs: Seq<Vessel<A>>, id: u64, i: int) -> Option<int>
    decreases vs.len() - i,
{
    if i < 0 || i >= vs.len() {
        None
    } else if vs[i].beacon.0 == id {
        Some(i)
    } else {
        vessel_index_from(vs, id, i + 1)
    }
}

/// Position of the Vessel with beacon `id`.
pub open spec fn vessel_index<A>(vs: Seq<Vessel<A>>, id: u64) -> Option<int> {
    vessel_index_from(vs, id, 0)
}

/// Position of the first Vessel whose main thread is `t`, searching from `i`.
pub open spec fn thread_vessel_from<A>(vs: Seq<Vessel<A>>, t: u64, i: int) -> Option<int>
    decreases vs.len() - i,
{
    if i < 0 || i >= vs.len() {
        None
    } else if vs[i].main_thread.0 == t {
        Some(i)
    } else {
        thread_vessel_from(vs, t, i + 1)
    }
}

/// Number of Vessels in `state` among the first `n`.
pub open spec fn vessels_in_state<A>(vs: Seq<Vessel<A>>, state: VesselState, n: int) -> nat
    decreases n,
{
    if n <= 0 || n > vs.len() {
        0
    } else {
        vessels_in_state(vs, state, n - 1) + if vs[n - 1].state == state {
            1nat
        } else {
            0nat
        }
    }
}

/// A Vessel whose beacon no earlier Vessel carries is found at the end.
proof fn lemma_fresh_index<A>(vs: Seq<Vessel<A>>, v: Vessel<A>, k: int)
    requires
        0 <= k <= vs.len(),
        forall|i: int| 0 <= i < vs.len() ==> #[trigger] vs[i].beacon.0 < v.beacon.0,
    ensures
        vessel_index_from(vs.push(v), v.beacon.0, k) == Some(vs.len() as int),
    decreases vs.len() - k,
{
    if k < vs.len() {
        assert(vs.push(v)[k] == vs[k]);
        lemma_fresh_index(vs, v, k + 1);
    }
}

/// What unmooring `beacon` does to the Harbor `h0`, giving `h1`: the Vessel with
/// that beacon, if any, is removed; nothing else changes.
pub open spec fn unmoor_effect<A>(h0: Harbor<A>, h1: Harbor<A>, beacon: VesselId) -> bool {
    &&& h1.spec_next_beacon() == h0.spec_next_beacon()
    &&& match vessel_index(h0.spec_vessels(), beacon.0) {
        None => h1.spec_vessels() == h0.spec_vessels(),
        Some(i) => h1.spec_vessels() == h0.spec_vessels().remove(i),
    }
}

/// The Harbor: all Vessels, in mooring order.
pub struct Harbor<A> {
    vessels: Vec<Vessel<A>>,
    next_beacon_id: u64,
}

impl<A> Harbor<A> {
    pub closed spec fn spec_vessels(&self) -> Seq<Vessel<A>> {
        self.vessels@
    }

    pub closed spec fn spec_next_beacon(&self) -> u64 {
        self.next_beacon_id
    }

    /// Every beacon in use was handed out before the next one.
    pub open spec fn wf(&self) -> bool {
        forall|i: int| 0 <= i < self.spec_vessels().len() ==> #[trigger] self.spec_vessels()[i].beacon.0 < self.spec_next_beacon()
    }

    /// An empty Harbor; the first beacon handed out is 1.
    pub fn new() -> (r: Self)
        ensures
            r.wf(),
            r.spec_vessels().len() == 0,
            r.spec_next_beacon() == 1,
    {
        Harbor { vessels: Vec::new(), next_beacon_id: 1 }
    }

    /// Moor a kernel-side Vessel with the given address space; it gets the next
    /// beacon, entry point 0 and the Nascent state.
    pub fn moor_vessel(
        &mut self,
        parent: Option<VesselId>,
        address_space: A,
        page_table_phys: u64,
        kernel_stack: u64,
        main_thread: ThreadId,
        fate: String,
    ) -> (r: VesselId)
        requires
            old(self).spec_next_beacon() < u64::MAX,
        ensures
            old(self).wf() ==> vessel_index(final(self).spec_vessels(), r.0) == Some(old(self).spec_vessels().len() as int),
            old(self).wf() ==> final(self).wf(),
            r == VesselId(old(self).spec_next_beacon()),
            final(self).spec_next_beacon() == old(self).spec_next_beacon() + 1,
            final(self).spec_vessels().len() == old(self).spec_vessels().len() + 1,
            final(self).spec_vessels().drop_last() == old(self).spec_vessels(),
            ({
                let v = final(self).spec_vessels().last();
                &&& v.beacon == r && v.parent == parent && v.address_space == address_space
                &&& v.page_table_phys == page_table_phys && v.entry_point == 0
                &&& v.kernel_stack == kernel_stack && v.main_thread == main_thread
                &&& v.fate == fate && v.state == VesselState::Nascent
            }),
    {
        let beacon = VesselId(self.next_beacon_id);
        self.next_beacon_id = self.next_beacon_id + 1;
        let vessel = Vessel::new(beacon, parent, address_space, page_table_phys, 0, kernel_stack, main_thread, fate);
        let ghost v = vessel;
        self.vessels.push(vessel);
        proof {
            assert(self.vessels@.drop_last() =~= old(self).vessels@);
            if old(self).wf() {
                lemma_fresh_index(old(self).vessels@, v, 0);
            }
        }
        beacon
    }

    /// Moor a user Vessel built from an ELF image: `loaded` is the outcome of
    /// building it (address space, page table, entry point, kernel stack). A beacon
    /// is consumed either way; on failure the error is passed on and no Vessel is
    /// added.
    pub fn moor_user_vessel(
        &mut self,
        parent: Option<VesselId>,
        fate: String,
        main_thread: ThreadId,
        loaded: Result<(A, u64, u64, u64), &'static str>,
    ) -> (r: Result<VesselId, &'static str>)
        requires
            old(self).spec_next_beacon() < u64::MAX,
        ensures
            old(self).wf() ==> final(self).wf(),
            final(self).spec_next_beacon() == old(self).spec_next_beacon() + 1,
            match loaded {
                Err(e) => r == Err::<VesselId, &'static str>(e) && final(self).spec_vessels() == old(
                    self,
                ).spec_vessels(),
                Ok((space, pt, entry, kstack)) => {
                    let v = final(self).spec_vessels().last();
                    &&& r == Ok::<VesselId, &'static str>(VesselId(old(self).spec_next_beacon()))
                    &&& final(self).spec_vessels().len() == old(self).spec_vessels().len() + 1
                    &&& final(self).spec_vessels().drop_last() == old(self).spec_vessels()
                    &&& v.beacon == VesselId(old(self).spec_next_beacon()) && v.parent == parent
                    &&& v.address_space == space && v.page_table_phys == pt && v.entry_point == entry
                    &&& v.kernel_stack == kstack && v.main_thread == main_thread && v.fate == fate
                    &&& v.state == VesselState::Nascent
                },
            },
    {
        let beacon = VesselId(self.next_beacon_id);
        self.next_beacon_id = self.next_beacon_id + 1;
        match loaded {
            Err(e) => Err(e),
            Ok((space, pt, entry, kstack)) => {
                let vessel = Vessel::new(beacon, parent, space, pt, entry, kstack, main_thread, fate);
                self.vessels.push(vessel);
                proof {
                    assert(self.vessels@.drop_last() =~= old(self).vessels@);
                }
                Ok(beacon)
            },
        }
    }

    fn index_of(&self, beacon: VesselId) -> (r: Option<usize>)
        ensures
            match r {
                Some(i) => vessel_index(self.vessels@, beacon.0) == Some(i as int) && i < self.vessels@.len(),
                None => vessel_index(self.vessels@, beacon.0) is None,
            },
    {
        let mut i: usize = 0;
        while i < self.vessels.len()
            invariant
                i <= self.vessels@.len(),
                vessel_index_from(self.vessels@, beacon.0, 0) == vessel_index_from(self.vessels@, beacon.0, i as int),
            decreases self.vessels@.len() - i,
        {
            if self.vessels[i].beacon.0 == beacon.0 {
                return Some(i);
            }
            i = i + 1;
        }
        None
    }

    /// Find a Vessel by beacon.
    pub fn find_vessel(&self, beacon: VesselId) -> (r: Option<&Vessel<A>>)
        ensures
            match vessel_index(self.spec_vessels(), beacon.0) {
                Some(i) => r == Some(&self.spec_vessels()[i]),
                None => r is None,
            },
    {
        match self.index_of(beacon) {
            Some(i) => Some(&self.vessels[i]),
            None => None,
        }
    }

    /// Change the state of a Vessel; false when there is no such Vessel.
    pub fn set_vessel_state(&mut self, beacon: VesselId, state: VesselState) -> (r: bool)
        ensures
            old(self).wf() ==> final(self).wf(),
            final(self).spec_next_beacon() == old(self).spec_next_beacon(),
            final(self).spec_vessels().len() == old(self).spec_vessels().len(),
            match vessel_index(old(self).spec_vessels(), beacon.0) {
                None => !r && final(self).spec_vessels() == old(self).spec_vessels(),
                Some(i) => {
                    &&& r
                    &&& final(self).spec_vessels()[i] == (Vessel { state: state, ..old(self).spec_vessels()[i] })
                    &&& forall|k: int|
                        0 <= k < old(self).spec_vessels().len() && k != i ==> final(self).spec_vessels()[k]
                            == old(self).spec_vessels()[k]
                },
            },
    {
        match self.index_of(beacon) {
            Some(i) => {
                self.vessels[i].set_state(state);
                true
            },
            None => false,
        }
    }

    /// Set the main thread of a Vessel; false when there is no such Vessel.
    pub fn set_main_thread(&mut self, beacon: VesselId, thread: ThreadId) -> (r: bool)
        ensures
            old(self).wf() ==> final(self).wf(),
            final(self).spec_next_beacon() == old(self).spec_next_beacon(),
            final(self).spec_vessels().len() == old(self).spec_vessels().len(),
            match vessel_index(old(self).spec_vessels(), beacon.0) {
                None => !r && final(self).spec_vessels() == old(self).spec_vessels(),
                Some(i) => {
                    &&& r
                    &&& final(self).spec_vessels()[i] == (Vessel { main_thread: thread, ..old(self).spec_vessels()[i] })
                    &&& forall|k: int|
                        0 <= k < old(self).spec_vessels().len() && k != i ==> final(self).spec_vessels()[k]
                            == old(self).spec_vessels()[k]
                },
            },
    {
        match self.index_of(beacon) {
            Some(i) => {
                self.vessels[i].main_thread = thread;
                true
            },
            None => false,
        }
    }

    /// The Vessel whose main thread is `thread_id`.
    pub fn find_vessel_by_thread(&self, thread_id: ThreadId) -> (r: Option<VesselId>)
        ensures
            match thread_vessel_from(self.spec_vessels(), thread_id.0, 0) {
                Some(i) => r == Some(self.spec_vessels()[i].beacon),
                None => r is None,
            },
    {
        let mut i: usize = 0;
        while i < self.vessels.len()
            invariant
                i <= self.vessels@.len(),
                thread_vessel_from(self.vessels@, thread_id.0, 0) == thread_vessel_from(
                    self.vessels@,
                    thread_id.0,
                    i as int,
                ),
            decreases self.vessels@.len() - i,
        {
            if self.vessels[i].main_thread.0 == thread_id.0 {
                return Some(self.vessels[i].beacon);
            }
            i = i + 1;
        }
        None
    }

    /// Remove a Vessel; false when there is no such Vessel.
    pub fn unmoor_vessel(&mut self, beacon: VesselId) -> (r: bool)
        ensures
            unmoor_effect(*old(self), *final(self), beacon),
            old(self).wf() ==> final(self).wf(),
            final(self).spec_next_beacon() == old(self).spec_next_beacon(),
            match vessel_index(old(self).spec_vessels(), beacon.0) {
                None => !r && final(self).spec_vessels() == old(self).spec_vessels(),
                Some(i) => r && final(self).spec_vessels() == old(self).spec_vessels().remove(i),
            },
    {
        match self.index_of(beacon) {
            Some(i) => {
                let _removed = self.vessels.remove(i);
                true
            },
            None => false,
        }
    }

    /// Number of Vessels.
    pub fn vessel_count(&self) -> (r: usize)
        ensures
            r == self.spec_vessels().len(),
    {
        self.vessels.len()
    }

    /// The beacons of all Vessels, in mooring order.
    pub fn all_beacons(&self) -> (r: Vec<VesselId>)
        ensures
            r@.len() == self.spec_vessels().len(),
            forall|k: int| 0 <= k < r@.len() ==> r@[k] == #[trigger] self.spec_vessels()[k].beacon,
    {
        let mut out: Vec<VesselId> = Vec::new();
        let mut i: usize = 0;
        while i < self.vessels.len()
            invariant
                i <= self.vessels@.len(),
                out@.len() == i,
                forall|k: int| 0 <= k < i ==> out@[k] == #[trigger] self.vessels@[k].beacon,
            decreases self.vessels@.len() - i,
        {
            out.push(self.vessels[i].beacon);
            i = i + 1;
        }
        out
    }

    /// Number of Vessels in `state`.
    pub fn count_by_state(&self, state: VesselState) -> (r: usize)
        ensures
            r == vessels_in_state(self.spec_vessels(), state, self.spec_vessels().len() as int),
    {
        let mut n: usize = 0;
        let mut i: usize = 0;
        while i < self.vessels.len()
            invariant
                i <= self.vessels@.len(),
                n == vessels_in_state(self.vessels@, state, i as int),
                n <= i,
            decreases self.vessels@.len() - i,
        {
            if self.vessels[i].state == state {
                n = n + 1;
            }
            i = i + 1;
        }
        n
    }

    /// Vessel counts, in total and by state.
    pub fn stats(&self) -> (r: HarborStats)
        ensures
            r.total_vessels == self.spec_vessels().len(),
            r.nascent == vessels_in_state(self.spec_vessels(), VesselState::Nascent, self.spec_vessels().len() as int),
            r.weaving == vessels_in_state(self.spec_vessels(), VesselState::Weaving, self.spec_vessels().len() as int),
            r.resting == vessels_in_state(self.spec_vessels(), VesselState::Resting, self.spec_vessels().len() as int),
            r.fading == vessels_in_state(self.spec_vessels(), VesselState::Fading, self.spec_vessels().len() as int),
            r.vanished == vessels_in_state(self.spec_vessels(), VesselState::Vanished, self.spec_vessels().len() as int),
    {
        HarborStats {
            total_vessels: self.vessel_count(),
            nascent: self.count_by_state(VesselState::Nascent),
            weaving: self.count_by_state(VesselState::Weaving),
            resting: self.count_by_state(VesselState::Resting),
            fading: self.count_by_state(VesselState::Fading),
            vanished: self.count_by_state(VesselState::Vanished),
        }
    }
}

} // verus!
