//! The kernel heap allocator front end: serves `(size, align)` requests from
//! the buddy allocator.
//!
//! A request is served from a block of at least `max(size, align)` bytes, and
//! the address handed back is rounded up to `align`.
use vstd::prelude::*;
use super::buddy::{self, BuddyStats, order_of, first_free, split_lists, freed_lists};

verus! {

/// A power of two below 2^64.
pub open spec fn is_pow2(a: usize) -> bool {
    exists|k: usize| k < usize::BITS && a == #[trigger] (1usize << k)
}

/// `x` rounded up to a multiple of `align`.
pub open spec fn align_up_spec(x: int, align: int) -> int {
    ((x + align - 1) / align) * align
}

/// The block size a request needs: the larger of its size and its alignment.
pub open spec fn request_size(size: usize, align: usize) -> usize {
    if size >= align {
        size
    } else {
        align
    }
}

/// The heap allocator: a buddy allocator serving size-and-alignment requests.
pub struct BuddyAllocator {
    inner: buddy::BuddyAllocator,
}

impl BuddyAllocator {
    /// The underlying buddy allocator.
    pub closed spec fn spec_inner(&self) -> buddy::BuddyAllocator {
        self.inner
    }

    /// An allocator over an empty heap.
    pub fn new() -> (r: Self)
        ensures
            r.spec_inner().wf(),
            r.spec_inner().spec_heap_size() == 0,
            r.spec_inner().live_blocks().len() == 0,
    {
        BuddyAllocator { inner: buddy::BuddyAllocator::new() }
    }

    /// Hand the heap `[heap_start, heap_start + heap_size)` to the buddy allocator.
    ///
    /// The heap must start on a 64KB boundary (the largest block size): a block's
    /// buddy is found by XOR of its address with the block size, which names the
    /// adjacent block of the pair only for blocks aligned to their size. The kernel
    /// heap's start is so aligned.
    pub fn init(&mut self, heap_start: usize, heap_size: usize)
        requires
            old(self).spec_inner().wf(),
            old(self).spec_inner().live_blocks().len() == 0,
            heap_start + heap_size <= usize::MAX,
            heap_start % 65536 == 0,
        ensures
            final(self).spec_inner().wf(),
            final(self).spec_inner().spec_heap_start() == heap_start,
            final(self).spec_inner().spec_heap_size() == heap_size,
            final(self).spec_inner().live_blocks().len() == 0,
    {
        self.inner.init(heap_start, heap_size);
    }

    /// Statistics of the underlying buddy allocator.
    pub fn stats(&self) -> (r: BuddyStats)
        requires
            self.spec_inner().wf(),
        ensures
            r.total_bytes == self.spec_inner().spec_heap_size(),
            r.free_bytes == self.spec_inner().free_bytes(),
            r.used_bytes == self.spec_inner().spec_heap_size() - self.spec_inner().free_bytes(),
    {
        self.inner.stats()
    }

    /// Serve a request of `size` bytes aligned to `align`: allocate
    /// `max(size, align)` bytes and round the address up to `align`. Returns 0
    /// (null) when the buddy allocator has no block, or when rounding up would
    /// pass the top of the address space.
    pub fn allocate_layout(&mut self, size: usize, align: usize) -> (r: usize)
        requires
            old(self).spec_inner().wf(),
            is_pow2(align),
        ensures
            final(self).spec_inner().wf(),
            final(self).spec_inner().spec_heap_start() == old(self).spec_inner().spec_heap_start(),
            final(self).spec_inner().spec_heap_size() == old(self).spec_inner().spec_heap_size(),
            final(self).spec_inner().spec_canaries_enabled() == old(self).spec_inner().spec_canaries_enabled(),
            ({
                let inner = old(self).spec_inner();
                let req = request_size(size, align);
                let total = if inner.spec_canaries_enabled() { req + 16 } else { req as int };
                let t = order_of(total as nat);
                if req == 0 || t > 10 || first_free(inner.lists(), t) is None {
                    &&& r == 0
                    &&& final(self).spec_inner().lists() == inner.lists()
                    &&& final(self).spec_inner().live_blocks() == inner.live_blocks()
                } else {
                    let c = first_free(inner.lists(), t)->0;
                    let a = inner.lists()[c as int].last();
                    let x = a + (if inner.spec_canaries_enabled() { 8int } else { 0 });
                    &&& final(self).spec_inner().lists() == split_lists(inner.lists(), c, t)
                    &&& final(self).spec_inner().live_blocks() == inner.live_blocks().push((a, t))
                    &&& r == (if x + align - 1 > usize::MAX { 0 } else { align_up_spec(x, align as int) })
                }
            }),
    {
        proof {
            lemma_pow2_positive(align);
        }
        let request = if size >= align {
            size
        } else {
            align
        };
        match self.inner.allocate(request) {
            None => 0,
            Some(addr) => {
                match addr.checked_add(align - 1) {
                    None => 0,
                    Some(bumped) => {
                        assert((bumped / align) * align <= bumped) by (nonlinear_arith)
                            requires
                                align >= 1,
                        ;
                        let aligned = (bumped / align) * align;
                        assert(aligned % align == 0) by (nonlinear_arith)
                            requires
                                align >= 1,
                                aligned == (bumped / align) * align,
                        ;
                        aligned
                    },
                }
            },
        }
    }

    /// Return the block of a request of `size` bytes aligned to `align` at `addr`.
    pub fn deallocate_layout(&mut self, addr: usize, size: usize, align: usize)
        requires
            old(self).spec_inner().wf(),
            old(self).spec_inner().can_free(addr, request_size(size, align)),
        ensures
            final(self).spec_inner().wf(),
            final(self).spec_inner().spec_heap_start() == old(self).spec_inner().spec_heap_start(),
            final(self).spec_inner().spec_heap_size() == old(self).spec_inner().spec_heap_size(),
            final(self).spec_inner().spec_canaries_enabled() == old(self).spec_inner().spec_canaries_enabled(),
            ({
                let inner = old(self).spec_inner();
                let req = request_size(size, align);
                let b = inner.freed_block(addr);
                let o = order_of(inner.freed_total(req) as nat);
                if inner.frees_block(req) {
                    &&& final(self).spec_inner().lists() == freed_lists(
                        inner.lists(),
                        inner.spec_heap_start() as int,
                        inner.heap_end(),
                        b as usize,
                        o,
                    )
                    &&& final(self).spec_inner().live_blocks() == inner.live_blocks().remove_value((b as usize, o))
                } else {
                    &&& final(self).spec_inner().lists() == inner.lists()
                    &&& final(self).spec_inner().live_blocks() == inner.live_blocks()
                }
            }),
    {
        let request = if size >= align {
            size
        } else {
            align
        };
        self.inner.deallocate(addr, request);
    }
}

/// A power of two is at least 1.
proof fn lemma_pow2_positive(a: usize)
    requires
        is_pow2(a),
    ensures
        a >= 1,
{
    let k = choose|k: usize| k < usize::BITS && a == #[trigger] (1usize << k);
    assert(1usize << k >= 1) by (bit_vector)
        requires
            k < usize::BITS,
    ;
}

} // verus!
