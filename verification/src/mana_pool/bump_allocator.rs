//! A bump allocator: hands out memory by moving a pointer forward, never reuses it.
use vstd::prelude::*;

verus! {

/// `x` rounded up to a multiple of `align`.
pub open spec fn align_up_spec(x: int, align: int) -> int {
    ((x + align - 1) / align) * align
}

/// A power of two below 2^64.
pub open spec fn is_pow2(a: usize) -> bool {
    exists|k: usize| k < usize::BITS && a == #[trigger] (1usize << k)
}

/// The bump allocator's state.
pub struct BumpAllocator {
    heap_start: usize,
    heap_end: usize,
    next: usize,
}

impl BumpAllocator {
    pub closed spec fn spec_start(&self) -> usize {
        self.heap_start
    }

    pub closed spec fn spec_end(&self) -> usize {
        self.heap_end
    }

    pub closed spec fn spec_next(&self) -> usize {
        self.next
    }

    /// An allocator over an empty heap.
    pub fn new() -> (r: Self)
        ensures
            r.spec_start() == 0 && r.spec_end() == 0 && r.spec_next() == 0,
    {
        BumpAllocator { heap_start: 0, heap_end: 0, next: 0 }
    }

    /// Use `[heap_start, heap_start + heap_size)` as the heap, from its start.
    pub fn init(&mut self, heap_start: usize, heap_size: usize)
        requires
            heap_start + heap_size <= usize::MAX,
        ensures
            final(self).spec_start() == heap_start,
            final(self).spec_end() == heap_start + heap_size,
            final(self).spec_next() == heap_start,
    {
        self.heap_start = heap_start;
        self.heap_end = heap_start + heap_size;
        self.next = heap_start;
    }

    /// Allocate `size` bytes aligned to `align`: the next free address rounded up
    /// to `align`, or 0 (null) when the block would pass the end of the heap.
    pub fn allocate(&mut self, size: usize, align: usize) -> (r: usize)
        requires
            is_pow2(align),
            old(self).spec_next() + align - 1 + size <= usize::MAX,
        ensures
            ({
                let a = align_up_spec(old(self).spec_next() as int, align as int);
                if a + size > old(self).spec_end() {
                    r == 0 && *final(self) == *old(self)
                } else {
                    &&& r == a
                    &&& final(self).spec_next() == a + size
                    &&& final(self).spec_start() == old(self).spec_start()
                    &&& final(self).spec_end() == old(self).spec_end()
                }
            }),
    {
        let current = self.next;
        proof {
            lemma_pow2_positive(align);
        }
        let bumped = current + (align - 1);
        assert((bumped / align) * align <= bumped) by (nonlinear_arith)
            requires
                align >= 1,
        ;
        let aligned = (bumped / align) * align;
        let new_next = aligned + size;
        if new_next > self.heap_end {
            return 0;
        }
        self.next = new_next;
        aligned
    }
}

/// A power of two is at least 1.
proof fn lemma_pow2_positive(a: usize)
    requires
        is_pow2(a),
    ensures
        a >= 1,
{
    let k = choose|k: usize| k < usize::BITS && a == #[trigger] (1usize << k);
    assert(1usize << k >= 1) by (bit_vector)
        requires
            k < usize::BITS,
    ;
}

} // verus!
