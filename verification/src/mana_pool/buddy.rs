//! # Buddy Allocator - The Harmonious Division
//!
//! Memory is divided into power-of-2 sized blocks that can be split and
//! coalesced. Each block has a "buddy", its complement at `address XOR size`.
//!
//! The free lists hold block addresses per order; a block of order `o` spans
//! `64 * 2^o` bytes. The allocator's invariant (`wf`) states that every free
//! block and every block handed out lies inside the heap, is aligned to its
//! own size, and that no two of them overlap.
use vstd::prelude::*;
use vstd::arithmetic::power2::*;
use vstd::arithmetic::div_mod::*;

verus! {

/// Minimum block size: 64 bytes.
pub const MIN_BLOCK_SIZE: usize = 64;

/// Maximum order: blocks go up to 64 * 2^10 = 64KB.
pub const MAX_ORDER: usize = 10;

/// Number of free lists (one for each order).
pub const NUM_ORDERS: usize = 11;

/// Bytes that heap canaries add around an allocation (one 8-byte canary on each side).
pub const CANARY_SIZE: usize = 8;

/// Total canary overhead per allocation.
pub const TOTAL_CANARY_OVERHEAD: usize = 16;

/// Size in bytes of a block of the given order.
pub open spec fn block_size(order: nat) -> int {
    64 * pow2(order) as int
}

/// Number of 64-byte units needed to hold `size` bytes (at least one).
pub open spec fn units_for(size: nat) -> nat {
    if size <= 64 {
        1
    } else {
        ((size + 63) / 64) as nat
    }
}

/// The smallest order whose block can hold `size` bytes.
pub open spec fn is_order_for(size: nat, order: nat) -> bool {
    &&& pow2(order) >= units_for(size)
    &&& (order > 0 ==> pow2((order - 1) as nat) < units_for(size))
}

/// The half-open byte ranges `[a1, a1 + size(o1))` and `[a2, a2 + size(o2))` do not overlap.
pub open spec fn disjoint_blocks(a1: int, o1: nat, a2: int, o2: nat) -> bool {
    a1 + block_size(o1) <= a2 || a2 + block_size(o2) <= a1
}

/// Sum of the sizes of all free blocks in the first `n` free lists.
pub open spec fn free_bytes_upto(lists: Seq<Seq<usize>>, n: nat) -> int
    decreases n,
{
    if n == 0 {
        0
    } else {
        free_bytes_upto(lists, (n - 1) as nat) + lists[n - 1].len() * block_size((n - 1) as nat)
    }
}

/// Number of free blocks in the first `n` free lists.
pub open spec fn free_count_upto(lists: Seq<Seq<usize>>, n: nat) -> nat
    decreases n,
{
    if n == 0 {
        0
    } else {
        free_count_upto(lists, (n - 1) as nat) + lists[n - 1].len()
    }
}

/// Total size of a sequence of live allocations `(block address, order)`.
pub open spec fn live_bytes(live: Seq<(usize, nat)>) -> int
    decreases live.len(),
{
    if live.len() == 0 {
        0
    } else {
        live_bytes(live.drop_last()) + block_size(live.last().1)
    }
}

/// Concrete block sizes of every order.
proof fn lemma_block_sizes()
    ensures
        block_size(0) == 64,
        block_size(1) == 128,
        block_size(2) == 256,
        block_size(3) == 512,
        block_size(4) == 1024,
        block_size(5) == 2048,
        block_size(6) == 4096,
        block_size(7) == 8192,
        block_size(8) == 16384,
        block_size(9) == 32768,
        block_size(10) == 65536,
        forall|o: nat| o < 10 ==> #[trigger] block_size(o + 1) == 2 * block_size(o),
{
    lemma2_to64();
    assert forall|o: nat| o < 10 implies #[trigger] block_size(o + 1) == 2 * block_size(o) by {
        lemma_pow2_unfold(o + 1);
        assert(pow2(o + 1) == 2 * pow2(o));
    }
}

/// Moving an aligned address by a multiple of the alignment keeps it aligned.
proof fn lemma_align_add(a: int, s: int, t: int)
    requires
        s > 0,
        t > 0,
        a % t == 0,
        t % s == 0,
    ensures
        (a + t) % t == 0,
        a % s == 0,
{
    let q = a / t;
    let r = t / s;
    lemma_fundamental_div_mod(a, t);
    lemma_fundamental_div_mod(t, s);
    lemma_mod_multiples_vanish(q, t, t);
    lemma_mod_multiples_basic(1, t);
    assert(a == s * (r * q)) by (nonlinear_arith)
        requires
            a == t * q + 0,
            t == s * r + 0,
    ;
    assert(a == (r * q) * s) by (nonlinear_arith)
        requires
            a == s * (r * q),
    ;
    lemma_mod_multiples_basic(r * q, s);
}

/// The buddy of an aligned block is its neighbour, and the lower of the two is
/// aligned to the next order.
proof fn lemma_buddy_xor(a: usize, o: nat)
    requires
        o < 10,
        a as int % block_size(o) == 0,
    ensures
        ({
            let s = block_size(o);
            let b = a ^ (s as usize);
            &&& (a as int % (2 * s) == 0 ==> b == a + s)
            &&& (a as int % (2 * s) != 0 ==> b == a - s)
            &&& (if a <= b { a as int } else { b as int }) % block_size(o + 1) == 0
        }),
{
    lemma_block_sizes();
    let s = block_size(o);
    let b = a ^ (s as usize);
    if o == 0 {
        assert({
            &&& (a % 128 == 0 ==> (a ^ 64usize) == a + 64)
            &&& (a % 128 != 0 ==> (a ^ 64usize) == a - 64)
            &&& (if a <= (a ^ 64usize) { a } else { a ^ 64usize }) % 128 == 0
        }) by (bit_vector)
            requires
                a % 64 == 0,
        ;
    } else if o == 1 {
        assert({
            &&& (a % 256 == 0 ==> (a ^ 128usize) == a + 128)
            &&& (a % 256 != 0 ==> (a ^ 128usize) == a - 128)
            &&& (if a <= (a ^ 128usize) { a } else { a ^ 128usize }) % 256 == 0
        }) by (bit_vector)
            requires
                a % 128 == 0,
        ;
    } else if o == 2 {
        assert({
            &&& (a % 512 == 0 ==> (a ^ 256usize) == a + 256)
            &&& (a % 512 != 0 ==> (a ^ 256usize) == a - 256)
            &&& (if a <= (a ^ 256usize) { a } else { a ^ 256usize }) % 512 == 0
        }) by (bit_vector)
            requires
                a % 256 == 0,
        ;
    } else if o == 3 {
        assert({
            &&& (a % 1024 == 0 ==> (a ^ 512usize) == a + 512)
            &&& (a % 1024 != 0 ==> (a ^ 512usize) == a - 512)
            &&& (if a <= (a ^ 512usize) { a } else { a ^ 512usize }) % 1024 == 0
        }) by (bit_vector)
            requires
                a % 512 == 0,
        ;
    } else if o == 4 {
        assert({
            &&& (a % 2048 == 0 ==> (a ^ 1024usize) == a + 1024)
            &&& (a % 2048 != 0 ==> (a ^ 1024usize) == a - 1024)
            &&& (if a <= (a ^ 1024usize) { a } else { a ^ 1024usize }) % 2048 == 0
        }) by (bit_vector)
            requires
                a % 1024 == 0,
        ;
    } else if o == 5 {
        assert({
            &&& (a % 4096 == 0 ==> (a ^ 2048usize) == a + 2048)
            &&& (a % 4096 != 0 ==> (a ^ 2048usize) == a - 2048)
            &&& (if a <= (a ^ 2048usize) { a } else { a ^ 2048usize }) % 4096 == 0
        }) by (bit_vector)
            requires
                a % 2048 == 0,
        ;
    } else if o == 6 {
        assert({
            &&& (a % 8192 == 0 ==> (a ^ 4096usize) == a + 4096)
            &&& (a % 8192 != 0 ==> (a ^ 4096usize) == a - 4096)
            &&& (if a <= (a ^ 4096usize) { a } else { a ^ 4096usize }) % 8192 == 0
        }) by (bit_vector)
            requires
                a % 4096 == 0,
        ;
    } else if o == 7 {
        assert({
            &&& (a % 16384 == 0 ==> (a ^ 8192usize) == a + 8192)
            &&& (a % 16384 != 0 ==> (a ^ 8192usize) == a - 8192)
            &&& (if a <= (a ^ 8192usize) { a } else { a ^ 8192usize }) % 16384 == 0
        }) by (bit_vector)
            requires
                a % 8192 == 0,
        ;
    } else if o == 8 {
        assert({
            &&& (a % 32768 == 0 ==> (a ^ 16384usize) == a + 16384)
            &&& (a % 32768 != 0 ==> (a ^ 16384usize) == a - 16384)
            &&& (if a <= (a ^ 16384usize) { a } else { a ^ 16384usize }) % 32768 == 0
        }) by (bit_vector)
            requires
                a % 16384 == 0,
        ;
    } else if o == 9 {
        assert({
            &&& (a % 65536 == 0 ==> (a ^ 32768usize) == a + 32768)
            &&& (a % 65536 != 0 ==> (a ^ 32768usize) == a - 32768)
            &&& (if a <= (a ^ 32768usize) { a } else { a ^ 32768usize }) % 65536 == 0
        }) by (bit_vector)
            requires
                a % 32768 == 0,
        ;
    }
}

/// Smallest order whose block holds `size` bytes: the basis of `size_to_order`.
proof fn lemma_units_cover(size: nat, order: nat)
    requires
        is_order_for(size, order),
    ensures
        size <= block_size(order),
{
    let u = units_for(size);
    assert(size <= 64 * u) by (nonlinear_arith)
        requires
            u == (if size <= 64 {
                1
            } else {
                ((size + 63) / 64) as nat
            }),
    ;
    assert(64 * u <= 64 * pow2(order)) by (nonlinear_arith)
        requires
            u <= pow2(order),
    ;
}

/// A block of order `o` at `a` lies inside `[hs, he)` and is aligned to its size.
pub open spec fn block_ok(a: int, o: nat, hs: int, he: int) -> bool {
    &&& o <= 10
    &&& hs <= a
    &&& a + block_size(o) <= he
    &&& a % block_size(o) == 0
}

/// Every free and live block is in the heap and aligned, and no two of them overlap.
pub open spec fn layout_ok(l: Seq<Seq<usize>>, live: Seq<(usize, nat)>, hs: int, he: int) -> bool {
    &&& forall|o: int, i: int|
        0 <= o < 11 && 0 <= i < l[o].len() ==> block_ok(#[trigger] l[o][i] as int, o as nat, hs, he)
    &&& forall|j: int| 0 <= j < live.len() ==> block_ok(#[trigger] live[j].0 as int, live[j].1, hs, he)
    &&& forall|o1: int, i1: int, o2: int, i2: int|
        0 <= o1 < 11 && 0 <= i1 < l[o1].len() && 0 <= o2 < 11 && 0 <= i2 < l[o2].len() && (o1 != o2
            || i1 != i2) ==> disjoint_blocks(
            #[trigger] l[o1][i1] as int,
            o1 as nat,
            #[trigger] l[o2][i2] as int,
            o2 as nat,
        )
    &&& forall|j: int, o: int, i: int|
        0 <= j < live.len() && 0 <= o < 11 && 0 <= i < l[o].len() ==> disjoint_blocks(
            #[trigger] live[j].0 as int,
            live[j].1,
            #[trigger] l[o][i] as int,
            o as nat,
        )
    &&& forall|j1: int, j2: int|
        0 <= j1 < live.len() && 0 <= j2 < live.len() && j1 != j2 ==> disjoint_blocks(
            #[trigger] live[j1].0 as int,
            live[j1].1,
            #[trigger] live[j2].0 as int,
            live[j2].1,
        )
}

/// Smallest order `o' >= o` (below 64) whose block holds `units` 64-byte units.
pub open spec fn order_search(units: nat, o: nat) -> nat
    decreases 64 - o,
{
    if o >= 64 || pow2(o) >= units {
        o
    } else {
        order_search(units, o + 1)
    }
}

/// The order `size_to_order` computes for `size` bytes.
pub open spec fn order_of(size: nat) -> nat {
    order_search(units_for(size), 0)
}

/// The lowest order `k` with `o <= k <= 10` whose free list is non-empty.
pub open spec fn first_free(l: Seq<Seq<usize>>, o: nat) -> Option<nat>
    decreases 11 - o,
{
    if o > 10 {
        None
    } else if l[o as int].len() > 0 {
        Some(o)
    } else {
        first_free(l, o + 1)
    }
}

/// The free lists after taking the head block of list `c` and splitting it down to order `t`:
/// each order `k` with `t <= k < c` receives the upper half split off at that order.
pub open spec fn split_lists(l: Seq<Seq<usize>>, c: nat, t: nat) -> Seq<Seq<usize>> {
    let a = l[c as int].last();
    Seq::new(
        l.len(),
        |k: int|
            if k == c {
                l[k].drop_last()
            } else if t <= k < c {
                l[k].push((a + block_size(k as nat)) as usize)
            } else {
                l[k]
            },
    )
}

/// Free lists, pending block address and order after coalescing a freed block at `cur`
/// of order `o` with every free buddy, as far as the heap and `MAX_ORDER` allow.
pub open spec fn coalesce(l: Seq<Seq<usize>>, hs: int, he: int, cur: usize, o: nat) -> (Seq<Seq<usize>>, usize, nat)
    decreases 10 - o,
{
    if o >= 10 {
        (l, cur, o)
    } else {
        let b = cur ^ (block_size(o) as usize);
        if !(hs <= b && b + block_size(o) <= he) || !l[o as int].contains(b) {
            (l, cur, o)
        } else {
            coalesce(
                l.update(o as int, l[o as int].remove_value(b)),
                hs,
                he,
                if cur <= b { cur } else { b },
                o + 1,
            )
        }
    }
}

/// The free lists after freeing a block at `cur` of order `o`: coalesce, then push the result.
pub open spec fn freed_lists(l: Seq<Seq<usize>>, hs: int, he: int, cur: usize, o: nat) -> Seq<Seq<usize>> {
    let c = coalesce(l, hs, he, cur, o);
    c.0.update(c.2 as int, c.0[c.2 as int].push(c.1))
}

/// Block sizes grow with the order and each divides the larger ones.
proof fn lemma_block_size_le(o1: nat, o2: nat)
    requires
        o1 <= o2,
    ensures
        block_size(o1) <= block_size(o2),
        block_size(o2) % block_size(o1) == 0,
        o1 < o2 ==> 2 * block_size(o1) <= block_size(o2),
        block_size(o1) >= 64,
{
    let d = (o2 - o1) as nat;
    lemma_pow2_adds(o1, d);
    lemma_pow2_pos(d);
    lemma_pow2_pos(o1);
    assert(block_size(o2) == block_size(o1) * pow2(d) && block_size(o2) == pow2(d) * block_size(o1))
        by (nonlinear_arith)
        requires
            pow2(o2) == pow2(o1) * pow2(d),
            block_size(o2) == 64 * pow2(o2),
            block_size(o1) == 64 * pow2(o1),
    ;
    lemma_mod_multiples_basic(pow2(d) as int, block_size(o1));
    assert(block_size(o1) <= block_size(o2)) by (nonlinear_arith)
        requires
            block_size(o2) == block_size(o1) * pow2(d),
            pow2(d) >= 1,
            block_size(o1) >= 0,
    ;
    if o1 < o2 {
        lemma_pow2_unfold(d);
        lemma_pow2_pos((d - 1) as nat);
        assert(2 * block_size(o1) <= block_size(o2)) by (nonlinear_arith)
            requires
                block_size(o2) == block_size(o1) * pow2(d),
                pow2(d) == 2 * pow2((d - 1) as nat),
                pow2((d - 1) as nat) >= 1,
                block_size(o1) >= 0,
        ;
    }
}

/// Changing the lengths of one free list changes the free-byte total accordingly.
proof fn lemma_free_bytes_update(l1: Seq<Seq<usize>>, l2: Seq<Seq<usize>>, o: int, d: int, n: nat)
    requires
        l1.len() == 11,
        l2.len() == 11,
        0 <= o < 11,
        n <= 11,
        l2[o].len() == l1[o].len() + d,
        forall|k: int| 0 <= k < 11 && k != o ==> #[trigger] l2[k].len() == l1[k].len(),
    ensures
        free_bytes_upto(l2, n) == free_bytes_upto(l1, n) + (if o < n {
            d * block_size(o as nat)
        } else {
            0
        }),
        free_count_upto(l2, n) == free_count_upto(l1, n) + (if o < n {
            d
        } else {
            0
        }),
    decreases n,
{
    if n > 0 {
        lemma_free_bytes_update(l1, l2, o, d, (n - 1) as nat);
        let k = n - 1;
        if k == o {
            let a = l1[o].len() as int;
            let b = l2[o].len() as int;
            let s = block_size(o as nat);
            assert(b * s == a * s + d * s) by (nonlinear_arith)
                requires
                    b == a + d,
            ;
        }
    }
}

/// Removing one live allocation removes its size from the live total.
proof fn lemma_live_bytes_remove(live: Seq<(usize, nat)>, j: int)
    requires
        0 <= j < live.len(),
    ensures
        live_bytes(live.remove(j)) == live_bytes(live) - block_size(live[j].1),
    decreases live.len(),
{
    if j == live.len() - 1 {
        assert(live.remove(j) =~= live.drop_last());
    } else {
        lemma_live_bytes_remove(live.drop_last(), j);
        assert(live.remove(j).drop_last() =~= live.drop_last().remove(j));
        assert(live.remove(j).last() == live.last());
    }
}

/// The free-block count is at most the free bytes over 64.
proof fn lemma_free_count_le(l: Seq<Seq<usize>>, n: nat)
    requires
        n <= 11,
        l.len() == 11,
    ensures
        64 * free_count_upto(l, n) <= free_bytes_upto(l, n),
        free_count_upto(l, n) >= 0,
        free_bytes_upto(l, n) >= 0,
    decreases n,
{
    if n > 0 {
        lemma_free_count_le(l, (n - 1) as nat);
        lemma_block_size_le(0, (n - 1) as nat);
        let c = l[n - 1].len() as int;
        let s = block_size((n - 1) as nat);
        assert(64 * c <= c * s) by (nonlinear_arith)
            requires
                s >= 64,
                c >= 0,
        ;
    }
}

/// The search never returns an order below where it starts.
proof fn lemma_order_search_ge(units: nat, o: nat)
    ensures
        order_search(units, o) >= o,
    decreases 64 - o,
{
    if !(o >= 64 || pow2(o) >= units) {
        lemma_order_search_ge(units, o + 1);
    }
}

/// The search for an order passes order 10 when more than 1024 units are needed.
proof fn lemma_order_search_large(units: nat, o: nat)
    requires
        units > 1024,
        o <= 11,
    ensures
        order_search(units, o) > 10,
    decreases 11 - o,
{
    if o <= 10 {
        lemma2_to64();
        if o < 10 {
            lemma_pow2_strictly_increases(o, 10);
        }
        assert(pow2(o) <= 1024);
        lemma_order_search_large(units, o + 1);
    } else {
        lemma_order_search_ge(units, o);
    }
}

/// A block of order `o` at `x` lies inside the block of order `c` at `a`.
pub open spec fn inside(x: int, o: nat, a: int, c: nat) -> bool {
    a <= x && x + block_size(o) <= a + block_size(c)
}

/// A block inside a region is disjoint from whatever is disjoint from that region.
proof fn lemma_inside_disjoint(x: int, o: nat, a: int, c: nat, y: int, p: nat)
    requires
        inside(x, o, a, c),
        disjoint_blocks(y, p, a, c),
    ensures
        disjoint_blocks(x, o, y, p),
        disjoint_blocks(y, p, x, o),
{
}

/// Facts about the piece that splitting the block at `a` of order `c` leaves at order `k`.
proof fn lemma_piece(a: int, c: nat, k: nat, t: nat, hs: int, he: int)
    requires
        t <= k < c,
        block_ok(a, c, hs, he),
    ensures
        block_ok(a + block_size(k), k, hs, he),
        inside(a + block_size(k), k, a, c),
        block_ok(a, t, hs, he),
        inside(a, t, a, c),
        disjoint_blocks(a, t, a + block_size(k), k),
        disjoint_blocks(a + block_size(k), k, a, t),
{
    lemma_block_size_le(k, c);
    lemma_block_size_le(t, k);
    lemma_block_size_le(t, c);
    lemma_align_add(a, block_size(k), block_size(c));
    lemma_align_add(a, block_size(t), block_size(c));
    lemma_align_add(a, block_size(k), block_size(k));
}

/// Two pieces split off at different orders do not overlap.
proof fn lemma_pieces_disjoint(a: int, k1: nat, k2: nat)
    requires
        k1 < k2,
    ensures
        disjoint_blocks(a + block_size(k1), k1, a + block_size(k2), k2),
        disjoint_blocks(a + block_size(k2), k2, a + block_size(k1), k1),
{
    lemma_block_size_le(k1, k2);
}

/// Splitting the head block of list `c` down to order `t` and handing out its lowest part
/// keeps the layout invariant.
proof fn lemma_split_layout(l: Seq<Seq<usize>>, live: Seq<(usize, nat)>, hs: int, he: int, c: nat, t: nat)
    requires
        l.len() == 11,
        layout_ok(l, live, hs, he),
        he <= usize::MAX,
        t <= c <= 10,
        l[c as int].len() > 0,
    ensures
        layout_ok(split_lists(l, c, t), live.push((l[c as int].last(), t)), hs, he),
{
    let a = l[c as int].last();
    let ic = l[c as int].len() - 1;
    let nl = split_lists(l, c, t);
    let nlive = live.push((a, t));
    assert(l[c as int][ic] == a);
    assert(block_ok(a as int, c, hs, he));
    lemma_block_size_le(t, c);
    assert(block_ok(a as int, t, hs, he)) by {
        lemma_align_add(a as int, block_size(t), block_size(c));
    }
    // Every block in the new lists is an old block other than the split one, or a piece.
    assert forall|o: int, i: int| 0 <= o < 11 && 0 <= i < nl[o].len() implies {
        ||| (t <= o < c && i == l[o].len() && nl[o][i] == (a + block_size(o as nat)) as usize)
        ||| (i < l[o].len() && nl[o][i] == l[o][i] && !(o == c && i == ic))
    } by {
        if o == c {
            assert(nl[o] == l[o].drop_last());
        } else if t <= o < c {
            assert(nl[o] == l[o].push((a + block_size(o as nat)) as usize));
        } else {
            assert(nl[o] == l[o]);
        }
    }
    assert forall|o: int, i: int| 0 <= o < 11 && 0 <= i < nl[o].len() implies block_ok(
        #[trigger] nl[o][i] as int,
        o as nat,
        hs,
        he,
    ) by {
        if t <= o < c && i == l[o].len() {
            lemma_piece(a as int, c, o as nat, t, hs, he);
        } else {
            assert(block_ok(l[o][i] as int, o as nat, hs, he));
        }
    }
    assert forall|j: int| 0 <= j < nlive.len() implies block_ok(
        #[trigger] nlive[j].0 as int,
        nlive[j].1,
        hs,
        he,
    ) by {
        if j < live.len() {
            assert(nlive[j] == live[j]);
        }
    }
    assert forall|o1: int, i1: int, o2: int, i2: int|
        0 <= o1 < 11 && 0 <= i1 < nl[o1].len() && 0 <= o2 < 11 && 0 <= i2 < nl[o2].len() && (o1 != o2
            || i1 != i2) implies disjoint_blocks(
        #[trigger] nl[o1][i1] as int,
        o1 as nat,
        #[trigger] nl[o2][i2] as int,
        o2 as nat,
    ) by {
        let p1 = t <= o1 < c && i1 == l[o1].len();
        let p2 = t <= o2 < c && i2 == l[o2].len();
        if p1 && p2 {
            lemma_piece(a as int, c, o1 as nat, t, hs, he);
            lemma_piece(a as int, c, o2 as nat, t, hs, he);
            if o1 < o2 {
                lemma_pieces_disjoint(a as int, o1 as nat, o2 as nat);
            } else {
                lemma_pieces_disjoint(a as int, o2 as nat, o1 as nat);
            }
        } else if p1 {
            lemma_piece(a as int, c, o1 as nat, t, hs, he);
            assert(disjoint_blocks(l[o2][i2] as int, o2 as nat, l[c as int][ic] as int, c));
            lemma_inside_disjoint(nl[o1][i1] as int, o1 as nat, a as int, c, nl[o2][i2] as int, o2 as nat);
        } else if p2 {
            lemma_piece(a as int, c, o2 as nat, t, hs, he);
            assert(disjoint_blocks(l[o1][i1] as int, o1 as nat, l[c as int][ic] as int, c));
            lemma_inside_disjoint(nl[o2][i2] as int, o2 as nat, a as int, c, nl[o1][i1] as int, o1 as nat);
        } else {
            assert(disjoint_blocks(l[o1][i1] as int, o1 as nat, l[o2][i2] as int, o2 as nat));
        }
    }
    assert forall|j: int, o: int, i: int|
        0 <= j < nlive.len() && 0 <= o < 11 && 0 <= i < nl[o].len() implies disjoint_blocks(
        #[trigger] nlive[j].0 as int,
        nlive[j].1,
        #[trigger] nl[o][i] as int,
        o as nat,
    ) by {
        let p = t <= o < c && i == l[o].len();
        if j < live.len() {
            assert(nlive[j] == live[j]);
            if p {
                lemma_piece(a as int, c, o as nat, t, hs, he);
                assert(disjoint_blocks(live[j].0 as int, live[j].1, l[c as int][ic] as int, c));
                lemma_inside_disjoint(nl[o][i] as int, o as nat, a as int, c, live[j].0 as int, live[j].1);
            } else {
                assert(disjoint_blocks(live[j].0 as int, live[j].1, l[o][i] as int, o as nat));
            }
        } else {
            assert(nlive[j] == (a, t));
            if p {
                lemma_piece(a as int, c, o as nat, t, hs, he);
            } else {
                assert(disjoint_blocks(l[o][i] as int, o as nat, l[c as int][ic] as int, c));
                lemma_inside_disjoint(a as int, t, a as int, c, l[o][i] as int, o as nat);
            }
        }
    }
    assert forall|j1: int, j2: int|
        0 <= j1 < nlive.len() && 0 <= j2 < nlive.len() && j1 != j2 implies disjoint_blocks(
        #[trigger] nlive[j1].0 as int,
        nlive[j1].1,
        #[trigger] nlive[j2].0 as int,
        nlive[j2].1,
    ) by {
        if j1 < live.len() && j2 < live.len() {
            assert(nlive[j1] == live[j1] && nlive[j2] == live[j2]);
        } else if j1 < live.len() {
            assert(nlive[j1] == live[j1]);
            assert(disjoint_blocks(live[j1].0 as int, live[j1].1, l[c as int][ic] as int, c));
            lemma_inside_disjoint(a as int, t, a as int, c, live[j1].0 as int, live[j1].1);
        } else {
            assert(nlive[j2] == live[j2]);
            assert(disjoint_blocks(live[j2].0 as int, live[j2].1, l[c as int][ic] as int, c));
            lemma_inside_disjoint(a as int, t, a as int, c, live[j2].0 as int, live[j2].1);
        }
    }
}

/// Splitting the head block of list `c` down to order `t` takes `block_size(t)` bytes
/// out of the free total.
proof fn lemma_split_bytes(l: Seq<Seq<usize>>, c: nat, t: nat)
    requires
        l.len() == 11,
        t <= c <= 10,
        l[c as int].len() > 0,
    ensures
        free_bytes_upto(split_lists(l, c, t), 11) == free_bytes_upto(l, 11) - block_size(t),
    decreases c - t,
{
    let nl = split_lists(l, c, t);
    if t == c {
        lemma_free_bytes_update(l, nl, c as int, -1, 11);
    } else {
        lemma_split_bytes(l, c, t + 1);
        let pl = split_lists(l, c, t + 1);
        assert forall|k: int| 0 <= k < 11 && k != t implies #[trigger] nl[k].len() == pl[k].len() by {
            assert(nl[k] == pl[k]);
        }
        assert(nl[t as int].len() == pl[t as int].len() + 1);
        lemma_free_bytes_update(pl, nl, t as int, 1, 11);
        lemma_block_sizes();
    }
}

/// What `first_free` finds is a non-empty list at or above the starting order.
proof fn lemma_first_free_found(l: Seq<Seq<usize>>, o: nat)
    ensures
        first_free(l, o) matches Some(c) ==> o <= c <= 10 && l[c as int].len() > 0,
    decreases 11 - o,
{
    if o <= 10 && l[o as int].len() == 0 {
        lemma_first_free_found(l, o + 1);
    }
}

/// A block being freed at `cur` of order `o` is in the heap, aligned, and overlaps no
/// free or live block.
pub open spec fn pending_ok(l: Seq<Seq<usize>>, live: Seq<(usize, nat)>, hs: int, he: int, cur: int, o: nat) -> bool {
    &&& block_ok(cur, o, hs, he)
    &&& forall|k: int, i: int|
        0 <= k < 11 && 0 <= i < l[k].len() ==> disjoint_blocks(cur, o, #[trigger] l[k][i] as int, k as nat)
    &&& forall|j: int| 0 <= j < live.len() ==> disjoint_blocks(cur, o, #[trigger] live[j].0 as int, live[j].1)
}

/// Taking a live block out of the live set makes it a pending block.
proof fn lemma_release_live(l: Seq<Seq<usize>>, live: Seq<(usize, nat)>, hs: int, he: int, j: int)
    requires
        layout_ok(l, live, hs, he),
        0 <= j < live.len(),
    ensures
        layout_ok(l, live.remove(j), hs, he),
        pending_ok(l, live.remove(j), hs, he, live[j].0 as int, live[j].1),
{
    let nl = live.remove(j);
    live.remove_ensures(j);
    assert forall|x: int| 0 <= x < nl.len() implies (#[trigger] nl[x] == live[if x < j { x } else { x + 1 }]) by {}
    assert forall|j1: int, j2: int|
        0 <= j1 < nl.len() && 0 <= j2 < nl.len() && j1 != j2 implies disjoint_blocks(
        #[trigger] nl[j1].0 as int,
        nl[j1].1,
        #[trigger] nl[j2].0 as int,
        nl[j2].1,
    ) by {
        let x1 = if j1 < j { j1 } else { j1 + 1 };
        let x2 = if j2 < j { j2 } else { j2 + 1 };
        assert(nl[j1] == live[x1] && nl[j2] == live[x2]);
    }
    assert forall|x: int| 0 <= x < nl.len() implies disjoint_blocks(
        live[j].0 as int,
        live[j].1,
        #[trigger] nl[x].0 as int,
        nl[x].1,
    ) by {
        let y = if x < j { x } else { x + 1 };
        assert(nl[x] == live[y]);
    }
    assert forall|k: int, i: int| 0 <= k < 11 && 0 <= i < l[k].len() implies disjoint_blocks(
        live[j].0 as int,
        live[j].1,
        #[trigger] l[k][i] as int,
        k as nat,
    ) by {}
    assert forall|x: int| 0 <= x < nl.len() implies block_ok(
        #[trigger] nl[x].0 as int,
        nl[x].1,
        hs,
        he,
    ) by {
        let y = if x < j { x } else { x + 1 };
        assert(nl[x] == live[y]);
    }
    assert forall|x: int, k: int, i: int|
        0 <= x < nl.len() && 0 <= k < 11 && 0 <= i < l[k].len() implies disjoint_blocks(
        #[trigger] nl[x].0 as int,
        nl[x].1,
        #[trigger] l[k][i] as int,
        k as nat,
    ) by {
        let y = if x < j { x } else { x + 1 };
        assert(nl[x] == live[y]);
    }
}

/// Merging a pending block with its free buddy yields a pending block of the next order.
proof fn lemma_merge_buddy(l: Seq<Seq<usize>>, live: Seq<(usize, nat)>, hs: int, he: int, cur: usize, o: nat)
    requires
        l.len() == 11,
        layout_ok(l, live, hs, he),
        pending_ok(l, live, hs, he, cur as int, o),
        o < 10,
        l[o as int].contains(cur ^ (block_size(o) as usize)),
    ensures
        ({
            let b = cur ^ (block_size(o) as usize);
            let nl = l.update(o as int, l[o as int].remove_value(b));
            let m = if cur <= b { cur } else { b };
            &&& layout_ok(nl, live, hs, he)
            &&& pending_ok(nl, live, hs, he, m as int, o + 1)
            &&& nl[o as int].len() == l[o as int].len() - 1
            &&& block_size(o + 1) == 2 * block_size(o)
        }),
{
    let b = cur ^ (block_size(o) as usize);
    let lo = l[o as int];
    lo.index_of_first_ensures(b);
    let ib = lo.index_of_first(b)->0;
    let nlo = lo.remove(ib);
    lo.remove_ensures(ib);
    assert(lo.remove_value(b) == nlo);
    let nl = l.update(o as int, nlo);
    let m = if cur <= b { cur } else { b };
    lemma_block_sizes();
    lemma_buddy_xor(cur, o);
    assert(block_ok(lo[ib] as int, o, hs, he));
    assert(disjoint_blocks(cur as int, o, lo[ib] as int, o));
    // b is the neighbour of cur, so the merged block is their union.
    assert(m as int + block_size(o + 1) == (if cur <= b { b as int } else { cur as int }) + block_size(o));
    let ix = |k: int, i: int| if k == o && i >= ib { i + 1 } else { i };
    assert forall|k: int, i: int| 0 <= k < 11 && 0 <= i < nl[k].len() implies (0 <= ix(k, i) < l[k].len()
        && #[trigger] nl[k][i] == l[k][ix(k, i)] && !(k == o && ix(k, i) == ib)) by {
        if k == o {
            assert(nl[k] == nlo);
        } else {
            assert(nl[k] == l[k]);
        }
    }
    assert forall|k: int, i: int| 0 <= k < 11 && 0 <= i < nl[k].len() implies block_ok(
        #[trigger] nl[k][i] as int,
        k as nat,
        hs,
        he,
    ) by {
        assert(nl[k][i] == l[k][ix(k, i)]);
    }
    assert forall|k1: int, i1: int, k2: int, i2: int|
        0 <= k1 < 11 && 0 <= i1 < nl[k1].len() && 0 <= k2 < 11 && 0 <= i2 < nl[k2].len() && (k1 != k2
            || i1 != i2) implies disjoint_blocks(
        #[trigger] nl[k1][i1] as int,
        k1 as nat,
        #[trigger] nl[k2][i2] as int,
        k2 as nat,
    ) by {
        assert(nl[k1][i1] == l[k1][ix(k1, i1)]);
        assert(nl[k2][i2] == l[k2][ix(k2, i2)]);
    }
    assert forall|j: int, k: int, i: int|
        0 <= j < live.len() && 0 <= k < 11 && 0 <= i < nl[k].len() implies disjoint_blocks(
        #[trigger] live[j].0 as int,
        live[j].1,
        #[trigger] nl[k][i] as int,
        k as nat,
    ) by {
        assert(nl[k][i] == l[k][ix(k, i)]);
    }
    assert forall|k: int, i: int| 0 <= k < 11 && 0 <= i < nl[k].len() implies disjoint_blocks(
        m as int,
        o + 1,
        #[trigger] nl[k][i] as int,
        k as nat,
    ) by {
        assert(nl[k][i] == l[k][ix(k, i)]);
        assert(disjoint_blocks(cur as int, o, l[k][ix(k, i)] as int, k as nat));
        assert(disjoint_blocks(l[o as int][ib] as int, o, l[k][ix(k, i)] as int, k as nat));
        lemma_block_size_le(0, k as nat);
    }
    assert forall|j: int| 0 <= j < live.len() implies disjoint_blocks(
        m as int,
        o + 1,
        #[trigger] live[j].0 as int,
        live[j].1,
    ) by {
        assert(disjoint_blocks(cur as int, o, live[j].0 as int, live[j].1));
        assert(disjoint_blocks(live[j].0 as int, live[j].1, l[o as int][ib] as int, o));
        lemma_block_size_le(0, live[j].1);
    }
}

/// Pushing a pending block onto its free list keeps the layout invariant.
proof fn lemma_push_pending(l: Seq<Seq<usize>>, live: Seq<(usize, nat)>, hs: int, he: int, cur: usize, o: nat)
    requires
        l.len() == 11,
        layout_ok(l, live, hs, he),
        pending_ok(l, live, hs, he, cur as int, o),
    ensures
        layout_ok(l.update(o as int, l[o as int].push(cur)), live, hs, he),
{
    let nl = l.update(o as int, l[o as int].push(cur));
    let n = l[o as int].len() as int;
    assert forall|k: int, i: int| 0 <= k < 11 && 0 <= i < nl[k].len() implies (#[trigger] nl[k][i] == if k
        == o && i == n {
        cur
    } else {
        l[k][i]
    }) && (k == o && i == n || i < l[k].len()) by {
        if k == o {
            assert(nl[k] == l[k].push(cur));
        } else {
            assert(nl[k] == l[k]);
        }
    }
    assert forall|k1: int, i1: int, k2: int, i2: int|
        0 <= k1 < 11 && 0 <= i1 < nl[k1].len() && 0 <= k2 < 11 && 0 <= i2 < nl[k2].len() && (k1 != k2
            || i1 != i2) implies disjoint_blocks(
        #[trigger] nl[k1][i1] as int,
        k1 as nat,
        #[trigger] nl[k2][i2] as int,
        k2 as nat,
    ) by {
        if k1 == o && i1 == n {
            assert(disjoint_blocks(cur as int, o, l[k2][i2] as int, k2 as nat));
        } else if k2 == o && i2 == n {
            assert(disjoint_blocks(cur as int, o, l[k1][i1] as int, k1 as nat));
        } else {
            assert(disjoint_blocks(l[k1][i1] as int, k1 as nat, l[k2][i2] as int, k2 as nat));
        }
    }
    assert forall|j: int, k: int, i: int|
        0 <= j < live.len() && 0 <= k < 11 && 0 <= i < nl[k].len() implies disjoint_blocks(
        #[trigger] live[j].0 as int,
        live[j].1,
        #[trigger] nl[k][i] as int,
        k as nat,
    ) by {
        if k == o && i == n {
            assert(disjoint_blocks(cur as int, o, live[j].0 as int, live[j].1));
        } else {
            assert(disjoint_blocks(live[j].0 as int, live[j].1, l[k][i] as int, k as nat));
        }
    }
    assert forall|k: int, i: int| 0 <= k < 11 && 0 <= i < nl[k].len() implies block_ok(
        #[trigger] nl[k][i] as int,
        k as nat,
        hs,
        he,
    ) by {
        if !(k == o && i == n) {
            assert(block_ok(l[k][i] as int, k as nat, hs, he));
        }
    }
}

/// The order of the block `add_initial_blocks` carves from a region of `size` bytes.
pub open spec fn initial_order(size: nat) -> nat {
    let o = order_of(size);
    if o < 10 { o } else { 10 }
}

/// The free lists after carving the region `[addr, addr + size)` into blocks, largest first,
/// stopping when the next block would not fit.
pub open spec fn initial_lists(l: Seq<Seq<usize>>, addr: int, size: int) -> Seq<Seq<usize>>
    decreases size,
{
    if size < 64 {
        l
    } else {
        let o = initial_order(size as nat);
        let bs = block_size(o);
        if bs <= size && bs > 0 {
            initial_lists(l.update(o as int, l[o as int].push(addr as usize)), addr + bs, size - bs)
        } else {
            l
        }
    }
}

/// The free bytes of a prefix of the free lists never exceed those of all of them.
proof fn lemma_free_bytes_prefix(l: Seq<Seq<usize>>, n: nat)
    requires
        n <= 11,
        l.len() == 11,
    ensures
        free_bytes_upto(l, n) <= free_bytes_upto(l, 11),
    decreases 11 - n,
{
    if n < 11 {
        lemma_free_bytes_prefix(l, n + 1);
        lemma_block_size_le(0, n);
        assert(l[n as int].len() * block_size(n) >= 0) by (nonlinear_arith)
            requires
                block_size(n) >= 64,
        ;
    }
}

/// The live total is never negative.
proof fn lemma_live_bytes_nonneg(live: Seq<(usize, nat)>)
    ensures
        live_bytes(live) >= 0,
    decreases live.len(),
{
    if live.len() > 0 {
        lemma_live_bytes_nonneg(live.drop_last());
        lemma_block_size_le(0, live.last().1);
    }
}

/// The free-block count of a prefix never exceeds that of all lists.
proof fn lemma_free_count_prefix(l: Seq<Seq<usize>>, n: nat)
    requires
        n <= 11,
        l.len() == 11,
    ensures
        free_count_upto(l, n) <= free_count_upto(l, 11),
    decreases 11 - n,
{
    if n < 11 {
        lemma_free_count_prefix(l, n + 1);
    }
}

/// Empty free lists hold no free bytes.
proof fn lemma_free_bytes_empty(l: Seq<Seq<usize>>, n: nat)
    requires
        n <= l.len(),
        forall|k: int| 0 <= k < n ==> #[trigger] l[k].len() == 0,
    ensures
        free_bytes_upto(l, n) == 0,
    decreases n,
{
    if n > 0 {
        lemma_free_bytes_empty(l, (n - 1) as nat);
        assert(l[n - 1].len() == 0);
    }
}

/// Coalescing moves bytes from the free lists into the pending block and nothing else:
/// free bytes plus the pending block's size stay the same.
proof fn lemma_coalesce_bytes(l: Seq<Seq<usize>>, hs: int, he: int, cur: usize, o: nat)
    requires
        l.len() == 11,
        o <= 10,
    ensures
        ({
            let r = coalesce(l, hs, he, cur, o);
            &&& r.0.len() == 11
            &&& r.2 <= 10
            &&& free_bytes_upto(r.0, 11) + block_size(r.2) == free_bytes_upto(l, 11) + block_size(o)
        }),
    decreases 10 - o,
{
    if o < 10 {
        let b = cur ^ (block_size(o) as usize);
        if hs <= b && b + block_size(o) <= he && l[o as int].contains(b) {
            let lo = l[o as int];
            lo.index_of_first_ensures(b);
            let nl = l.update(o as int, lo.remove_value(b));
            assert(nl[o as int].len() == lo.len() - 1);
            lemma_free_bytes_update(l, nl, o as int, -1, 11);
            lemma_coalesce_bytes(nl, hs, he, if cur <= b { cur } else { b }, o + 1);
            lemma_block_sizes();
        }
    }
}

/// Law: freeing a block of order `o` adds exactly `block_size(o)` bytes to the free lists.
pub proof fn lemma_freed_bytes(l: Seq<Seq<usize>>, hs: int, he: int, cur: usize, o: nat)
    requires
        l.len() == 11,
        o <= 10,
    ensures
        free_bytes_upto(freed_lists(l, hs, he, cur, o), 11) == free_bytes_upto(l, 11) + block_size(o),
{
    let r = coalesce(l, hs, he, cur, o);
    lemma_coalesce_bytes(l, hs, he, cur, o);
    lemma_free_bytes_update(r.0, freed_lists(l, hs, he, cur, o), r.2 as int, 1, 11);
}

/// Law: allocating a block and freeing it again gives back exactly the free bytes taken,
/// and the live set returns to what it was.
pub proof fn lemma_allocate_free_roundtrip(
    l: Seq<Seq<usize>>,
    live: Seq<(usize, nat)>,
    hs: int,
    he: int,
    c: nat,
    t: nat,
)
    requires
        l.len() == 11,
        layout_ok(l, live, hs, he),
        t <= c <= 10,
        l[c as int].len() > 0,
    ensures
        ({
            let a = l[c as int].last();
            &&& free_bytes_upto(freed_lists(split_lists(l, c, t), hs, he, a, t), 11) == free_bytes_upto(l, 11)
            &&& live.push((a, t)).remove_value((a, t)) == live
        }),
{
    let a = l[c as int].last();
    let sl = split_lists(l, c, t);
    lemma_split_bytes(l, c, t);
    assert(sl.len() == 11);
    lemma_freed_bytes(sl, hs, he, a, t);
    let nl = live.push((a, t));
    let ic = l[c as int].len() - 1;
    assert(l[c as int][ic] == a);
    assert forall|j: int| 0 <= j < live.len() implies #[trigger] live[j] != (a, t) by {
        assert(disjoint_blocks(live[j].0 as int, live[j].1, l[c as int][ic] as int, c));
        lemma_block_size_le(0, c);
        lemma_block_size_le(0, live[j].1);
    }
    assert(nl[live.len() as int] == (a, t));
    assert(nl.contains((a, t)));
    nl.index_of_first_ensures((a, t));
    let f = nl.index_of_first((a, t))->0;
    assert(f == live.len());
    assert(nl.remove(f) =~= live);
}

/// No free block of an order below the largest has its buddy, inside the heap,
/// free at the same order: every pair that could merge has merged.
pub open spec fn fully_coalesced(l: Seq<Seq<usize>>, hs: int, he: int) -> bool {
    forall|o: int, i: int|
        0 <= o < 10 && 0 <= i < l[o].len() ==> {
            let b = (#[trigger] l[o][i]) ^ (block_size(o as nat) as usize);
            !(hs <= b && b + block_size(o as nat) <= he && l[o].contains(b))
        }
}

/// Law: coalescing goes as far as it can. The block that freeing files is either
/// of the largest order or has no free buddy of its own order inside the heap.
pub proof fn lemma_freed_block_is_maximal(l: Seq<Seq<usize>>, hs: int, he: int, cur: usize, o: nat)
    requires
        o <= 10,
    ensures
        ({
            let r = coalesce(l, hs, he, cur, o);
            let b = r.1 ^ (block_size(r.2) as usize);
            &&& o <= r.2 <= 10
            &&& r.2 < 10 && hs <= b && b + block_size(r.2) <= he ==> !r.0[r.2 as int].contains(b)
        }),
    decreases 10 - o,
{
    if o < 10 {
        let b = cur ^ (block_size(o) as usize);
        if hs <= b && b + block_size(o) <= he && l[o as int].contains(b) {
            lemma_freed_block_is_maximal(
                l.update(o as int, l[o as int].remove_value(b)),
                hs,
                he,
                if cur <= b { cur } else { b },
                o + 1,
            );
        }
    }
}

/// Removing a value that was just pushed onto a sequence not holding it gives the
/// sequence back.
proof fn lemma_remove_pushed(s: Seq<usize>, v: usize)
    requires
        !s.contains(v),
    ensures
        s.push(v).remove_value(v) == s,
{
    let t = s.push(v);
    assert(t[s.len() as int] == v);
    t.index_of_first_ensures(v);
    let f = t.index_of_first(v)->0;
    if f < s.len() {
        assert(s[f] == v);
        assert(s.contains(v));
    }
    assert(t.remove(f) =~= s);
}

/// Freeing the block taken from list `c` and split down to order `t`, from the
/// state where orders below `k` are already merged back, merges every remaining
/// half and stops at order `c`.
proof fn lemma_coalesce_split(l: Seq<Seq<usize>>, live: Seq<(usize, nat)>, hs: int, he: int, c: nat, k: nat)
    requires
        l.len() == 11,
        layout_ok(l, live, hs, he),
        fully_coalesced(l, hs, he),
        k <= c <= 10,
        l[c as int].len() > 0,
    ensures
        coalesce(split_lists(l, c, k), hs, he, l[c as int].last(), k) == (split_lists(l, c, c), l[c as int].last(), c),
    decreases c - k,
{
    lemma_block_sizes();
    let a = l[c as int].last();
    let last = l[c as int].len() - 1;
    assert(l[c as int][last] == a);
    assert(block_ok(a as int, c, hs, he));
    let lk = split_lists(l, c, k);
    if k < c {
        let s = block_size(k);
        lemma_piece(a as int, c, k, k, hs, he);
        if k + 1 < c {
            lemma_piece(a as int, c, k + 1, k + 1, hs, he);
        }
        assert((a as int) % block_size(k + 1) == 0);
        lemma_buddy_xor(a, k);
        let b = a ^ (s as usize);
        assert(b == a + s);
        lemma_block_size_le(k + 1, c);
        assert(hs <= b && b + s <= he);
        assert(lk[k as int] == l[k as int].push(b));
        assert(lk[k as int].contains(b)) by {
            assert(lk[k as int][l[k as int].len() as int] == b);
        }
        assert(!l[k as int].contains(b)) by {
            if l[k as int].contains(b) {
                let i = choose|i: int| 0 <= i < l[k as int].len() && l[k as int][i] == b;
                assert(disjoint_blocks(l[k as int][i] as int, k, l[c as int][last] as int, c));
            }
        }
        lemma_remove_pushed(l[k as int], b);
        let next = lk.update(k as int, lk[k as int].remove_value(b));
        assert(next =~= split_lists(l, c, k + 1));
        lemma_coalesce_split(l, live, hs, he, c, k + 1);
    } else if c < 10 {
        let b = a ^ (block_size(c) as usize);
        if hs <= b && b + block_size(c) <= he {
            assert(!l[c as int].contains(b));
            if lk[c as int].contains(b) {
                let i = choose|i: int| 0 <= i < lk[c as int].len() && lk[c as int][i] == b;
                assert(l[c as int][i] == b);
            }
        }
    }
}

/// Law: allocating a block and freeing it again gives back exactly the free lists
/// that were there, as long as no two free buddies were waiting to merge: the
/// halves split off are merged back up to the order the block was taken from.
pub proof fn lemma_allocate_free_restores_lists(
    l: Seq<Seq<usize>>,
    live: Seq<(usize, nat)>,
    hs: int,
    he: int,
    c: nat,
    t: nat,
)
    requires
        l.len() == 11,
        layout_ok(l, live, hs, he),
        fully_coalesced(l, hs, he),
        t <= c <= 10,
        l[c as int].len() > 0,
    ensures
        freed_lists(split_lists(l, c, t), hs, he, l[c as int].last(), t) == l,
{
    lemma_coalesce_split(l, live, hs, he, c, t);
    let lc = split_lists(l, c, c);
    let a = l[c as int].last();
    assert(lc.update(c as int, lc[c as int].push(a)) =~= l) by {
        assert(lc[c as int].push(a) =~= l[c as int]);
    }
}

/// Block-size arithmetic for the buddy system.
pub struct BuddyAllocator {
    /// Free lists for each order (0..=MAX_ORDER); the head of each list is its last element.
    free_lists: Vec<Vec<usize>>,
    /// Start of the heap.
    heap_start: usize,
    /// Size of the heap.
    heap_size: usize,
    /// Whether allocations carry heap canaries around them.
    canaries_enabled: bool,
    /// Blocks handed out and not yet returned: (block address, order).
    live: Ghost<Seq<(usize, nat)>>,
}

/// Statistics about the buddy allocator.
#[derive(Debug, Clone, Copy)]
pub struct BuddyStats {
    pub total_bytes: usize,
    pub free_bytes: usize,
    pub used_bytes: usize,
    pub free_blocks: usize,
}

impl BuddyAllocator {
    /// The free lists as sequences of block addresses.
    pub closed spec fn lists(self) -> Seq<Seq<usize>> {
        Seq::new(self.free_lists@.len(), |i: int| self.free_lists@[i]@)
    }

    /// Blocks handed out by `allocate` and not yet given back.
    pub closed spec fn live_blocks(self) -> Seq<(usize, nat)> {
        self.live@
    }

    pub closed spec fn spec_heap_start(self) -> usize {
        self.heap_start
    }

    pub closed spec fn spec_heap_size(self) -> usize {
        self.heap_size
    }

    pub closed spec fn spec_canaries_enabled(self) -> bool {
        self.canaries_enabled
    }

    /// End of the heap (exclusive).
    pub open spec fn heap_end(self) -> int {
        self.spec_heap_start() + self.spec_heap_size()
    }

    /// Total size of all free blocks.
    pub open spec fn free_bytes(self) -> int {
        free_bytes_upto(self.lists(), 11)
    }

    /// The well-formedness invariant of the allocator.
    pub open spec fn wf(self) -> bool {
        &&& self.lists().len() == 11
        &&& self.heap_end() <= usize::MAX
        &&& layout_ok(self.lists(), self.live_blocks(), self.spec_heap_start() as int, self.heap_end())
        &&& self.free_bytes() + live_bytes(self.live_blocks()) <= self.spec_heap_size()
    }

    /// Create a new uninitialized buddy allocator with an empty heap.
    pub fn new() -> (r: Self)
        ensures
            r.wf(),
            r.spec_heap_start() == 0,
            r.spec_heap_size() == 0,
            !r.spec_canaries_enabled(),
            r.live_blocks() == Seq::<(usize, nat)>::empty(),
            forall|o: int| 0 <= o < 11 ==> #[trigger] r.lists()[o].len() == 0,
    {
        let mut free_lists: Vec<Vec<usize>> = Vec::new();
        let mut i: usize = 0;
        while i < NUM_ORDERS
            invariant
                i <= NUM_ORDERS,
                free_lists@.len() == i,
                forall|k: int| 0 <= k < i ==> (#[trigger] free_lists@[k])@.len() == 0,
            decreases NUM_ORDERS - i,
        {
            free_lists.push(Vec::new());
            i = i + 1;
        }
        let r = BuddyAllocator {
            free_lists,
            heap_start: 0,
            heap_size: 0,
            canaries_enabled: false,
            live: Ghost(Seq::empty()),
        };
        assert(free_bytes_upto(r.lists(), 11) == 0) by {
            reveal_with_fuel(free_bytes_upto, 12);
        }
        r
    }

    /// Convert a size to the minimum order needed to hold it.
    pub fn size_to_order(&self, size: usize) -> (r: usize)
        ensures
            is_order_for(size as nat, r as nat),
            r == order_of(size as nat),
    {
        let size = if size < MIN_BLOCK_SIZE { MIN_BLOCK_SIZE } else { size };
        let blocks = size / MIN_BLOCK_SIZE + if size % MIN_BLOCK_SIZE == 0 { 0 } else { 1 };
        assert(blocks == units_for(size as nat)) by {
            assert((size + 63) / 64 == size / 64 + if size % 64 == 0 { 0int } else { 1int });
        }
        let mut order: usize = 0;
        let mut power: usize = 1;
        proof {
            lemma2_to64();
        }
        while power < blocks
            invariant
                power == pow2(order as nat),
                power >= 1,
                order > 0 ==> pow2((order - 1) as nat) < blocks,
                blocks == units_for(size as nat),
                order_search(blocks as nat, order as nat) == order_of(size as nat),
                blocks <= usize::MAX / 64 + 1,
                order < 64,
            decreases 64 - order,
        {
            proof {
                lemma_pow2_unfold((order + 1) as nat);
                if order >= 63 {
                    lemma_pow2_strictly_increases(58, order as nat);
                    lemma2_to64_rest();
                }
            }
            order = order + 1;
            power = power * 2;
        }
        order
    }

    /// Convert an order to its block size.
    pub fn order_to_size(&self, order: usize) -> (r: usize)
        requires
            order <= MAX_ORDER,
        ensures
            r == block_size(order as nat),
    {
        proof {
            lemma2_to64();
            lemma_pow2_strictly_increases(order as nat, 11);
            vstd::bits::lemma_usize_shl_is_mul(64, order);
        }
        MIN_BLOCK_SIZE << order
    }

    /// The buddy address of a block: `addr XOR block size`.
    pub fn buddy_address(&self, addr: usize, order: usize) -> (r: usize)
        requires
            order <= MAX_ORDER,
        ensures
            r == addr ^ (block_size(order as nat) as usize),
    {
        let size = self.order_to_size(order);
        addr ^ size
    }

    /// Find the smallest order at or above `min_order` whose free list is non-empty.
    pub fn find_free_block(&self, min_order: usize) -> (r: Option<usize>)
        requires
            self.wf(),
        ensures
            r == (match first_free(self.lists(), min_order as nat) {
                Some(o) => Some(o as usize),
                None => None,
            }),
    {
        let mut order = min_order;
        while order <= MAX_ORDER
            invariant
                self.wf(),
                order >= min_order,
                first_free(self.lists(), min_order as nat) == first_free(self.lists(), order as nat),
            decreases MAX_ORDER + 1 - order,
        {
            if self.free_lists[order].len() > 0 {
                return Some(order);
            }
            order = order + 1;
        }
        None
    }

    /// Remove the head block from the free list of the given order.
    pub fn remove_from_free_list(&mut self, order: usize) -> (r: Option<usize>)
        requires
            old(self).wf(),
            order <= MAX_ORDER,
        ensures
            r == (if old(self).lists()[order as int].len() > 0 {
                Some(old(self).lists()[order as int].last())
            } else {
                None::<usize>
            }),
            final(self).lists() == (if old(self).lists()[order as int].len() > 0 {
                old(self).lists().update(order as int, old(self).lists()[order as int].drop_last())
            } else {
                old(self).lists()
            }),
            final(self).live_blocks() == old(self).live_blocks(),
            final(self).spec_heap_start() == old(self).spec_heap_start(),
            final(self).spec_heap_size() == old(self).spec_heap_size(),
            final(self).spec_canaries_enabled() == old(self).spec_canaries_enabled(),
    {
        let ghost l0 = self.lists();
        let r = self.free_lists[order].pop();
        proof {
            if l0[order as int].len() > 0 {
                assert(self.lists() =~= l0.update(order as int, l0[order as int].drop_last()));
            } else {
                assert(self.lists() =~= l0);
            }
        }
        r
    }

    /// Add a block to (the head of) the free list of the given order.
    pub fn add_to_free_list(&mut self, block: usize, order: usize)
        requires
            old(self).lists().len() == 11,
            order <= MAX_ORDER,
        ensures
            final(self).lists() == old(self).lists().update(
                order as int,
                old(self).lists()[order as int].push(block),
            ),
            final(self).live_blocks() == old(self).live_blocks(),
            final(self).spec_heap_start() == old(self).spec_heap_start(),
            final(self).spec_heap_size() == old(self).spec_heap_size(),
            final(self).spec_canaries_enabled() == old(self).spec_canaries_enabled(),
    {
        let ghost l0 = self.lists();
        self.free_lists[order].push(block);
        proof {
            assert(self.lists() =~= l0.update(order as int, l0[order as int].push(block)));
        }
    }

    /// Split the block at `addr` of order `current_order` down to `target_order`, adding the
    /// upper half split off at each order to that order's free list.
    pub fn split_block(&mut self, addr: usize, current_order: usize, target_order: usize)
        requires
            old(self).lists().len() == 11,
            target_order <= current_order <= MAX_ORDER,
            addr + block_size(current_order as nat) <= usize::MAX,
        ensures
            final(self).lists() == Seq::new(
                11,
                |k: int|
                    if target_order <= k < current_order {
                        old(self).lists()[k].push((addr + block_size(k as nat)) as usize)
                    } else {
                        old(self).lists()[k]
                    },
            ),
            final(self).live_blocks() == old(self).live_blocks(),
            final(self).spec_heap_start() == old(self).spec_heap_start(),
            final(self).spec_heap_size() == old(self).spec_heap_size(),
            final(self).spec_canaries_enabled() == old(self).spec_canaries_enabled(),
    {
        let ghost l0 = self.lists();
        let mut order = current_order;
        while order > target_order
            invariant
                target_order <= order <= current_order <= MAX_ORDER,
                addr + block_size(current_order as nat) <= usize::MAX,
                self.lists() == Seq::new(
                    11,
                    |k: int|
                        if order <= k < current_order {
                            l0[k].push((addr + block_size(k as nat)) as usize)
                        } else {
                            l0[k]
                        },
                ),
                self.live_blocks() == old(self).live_blocks(),
                self.spec_heap_start() == old(self).spec_heap_start(),
                self.spec_heap_size() == old(self).spec_heap_size(),
                self.spec_canaries_enabled() == old(self).spec_canaries_enabled(),
            decreases order,
        {
            order = order - 1;
            let half_size = self.order_to_size(order);
            proof {
                lemma_block_size_le(order as nat, current_order as nat);
            }
            let buddy_addr = addr + half_size;
            let ghost before = self.lists();
            self.add_to_free_list(buddy_addr, order);
            proof {
                assert(self.lists() =~= Seq::new(
                    11,
                    |k: int|
                        if order <= k < current_order {
                            l0[k].push((addr + block_size(k as nat)) as usize)
                        } else {
                            l0[k]
                        },
                ));
            }
        }
    }

    /// Allocate a block of at least `size` bytes (plus room for heap canaries when they
    /// are enabled). Returns the address of the user data: the block address, or the
    /// block address plus `CANARY_SIZE` with canaries. Writing the canary words into
    /// the block is left to the caller.
    pub fn allocate(&mut self, size: usize) -> (r: Option<usize>)
        requires
            old(self).wf(),
        ensures
            final(self).wf(),
            final(self).spec_heap_start() == old(self).spec_heap_start(),
            final(self).spec_heap_size() == old(self).spec_heap_size(),
            final(self).spec_canaries_enabled() == old(self).spec_canaries_enabled(),
            ({
                let total = if old(self).spec_canaries_enabled() { size + 16 } else { size as int };
                let t = order_of(total as nat);
                &&& r is None <==> (size == 0 || t > 10 || first_free(old(self).lists(), t) is None)
                &&& match r {
                    None => final(self).lists() == old(self).lists() && final(self).live_blocks()
                        == old(self).live_blocks(),
                    Some(x) => {
                        let c = first_free(old(self).lists(), t)->0;
                        let a = old(self).lists()[c as int].last();
                        &&& final(self).lists() == split_lists(old(self).lists(), c, t)
                        &&& final(self).live_blocks() == old(self).live_blocks().push((a, t))
                        &&& x == a + (if old(self).spec_canaries_enabled() { 8int } else { 0 })
                        &&& total <= block_size(t)
                    },
                }
            }),
    {
        if size == 0 {
            return None;
        }
        let canaries_enabled = self.canaries_enabled;
        if canaries_enabled && size > usize::MAX - TOTAL_CANARY_OVERHEAD {
            proof {
                assert(units_for((size + 16) as nat) > 1024);
                lemma_order_search_large(units_for((size + 16) as nat), 0);
            }
            return None;
        }
        let total_size = if canaries_enabled { size + TOTAL_CANARY_OVERHEAD } else { size };
        let needed_order = self.size_to_order(total_size);
        if needed_order > MAX_ORDER {
            return None;
        }
        let alloc_order = match self.find_free_block(needed_order) {
            Some(o) => o,
            None => {
                return None;
            },
        };
        proof {
            lemma_first_free_found(self.lists(), needed_order as nat);
        }
        let ghost l0 = self.lists();
        let ghost live0 = self.live_blocks();
        let block = match self.remove_from_free_list(alloc_order) {
            Some(b) => b,
            None => {
                return None;
            },
        };
        proof {
            assert(l0[alloc_order as int][l0[alloc_order as int].len() - 1] == block);
            assert(block_ok(block as int, alloc_order as nat, self.heap_start as int, self.heap_end()));
        }
        self.split_block(block, alloc_order, needed_order);
        proof {
            assert(self.lists() =~= split_lists(l0, alloc_order as nat, needed_order as nat));
            lemma_split_layout(
                l0,
                live0,
                self.heap_start as int,
                self.heap_end(),
                alloc_order as nat,
                needed_order as nat,
            );
            lemma_split_bytes(l0, alloc_order as nat, needed_order as nat);
            self.live@ = live0.push((block, needed_order as nat));
            assert(self.live@.drop_last() =~= live0);
            lemma_units_cover(total_size as nat, needed_order as nat);
            let j = self.live@.len() - 1;
            assert(self.live@[j] == (block, needed_order as nat));
            assert(block_ok(self.live@[j].0 as int, self.live@[j].1, self.heap_start as int, self.heap_end()));
        }
        if canaries_enabled {
            proof {
                lemma_block_size_le(0, needed_order as nat);
            }
            Some(block + CANARY_SIZE)
        } else {
            Some(block)
        }
    }

    /// Address of the block that `addr` (as returned by `allocate`) lies in.
    pub open spec fn freed_block(self, addr: usize) -> int {
        if self.spec_canaries_enabled() { addr - 8 } else { addr as int }
    }

    /// Bytes the block behind an allocation of `size` bytes had to hold.
    pub open spec fn freed_total(self, size: usize) -> int {
        if self.spec_canaries_enabled() { size + 16 } else { size as int }
    }

    /// `deallocate(addr, size)` frees a block: the size is non-zero and its block fits an order.
    pub open spec fn frees_block(self, size: usize) -> bool {
        size != 0 && self.freed_total(size) <= usize::MAX && order_of(self.freed_total(size) as nat) <= 10
    }

    /// The safety condition of `deallocate`: when it frees a block, that block is one that
    /// `allocate` handed out for an allocation of this size and that has not been freed since.
    pub open spec fn can_free(self, addr: usize, size: usize) -> bool {
        self.frees_block(size) ==> (self.freed_block(addr) >= 0 && self.live_blocks().contains(
            (self.freed_block(addr) as usize, order_of(self.freed_total(size) as nat)),
        ))
    }

    /// Check if a block of the given order at `addr` lies inside the heap.
    pub fn is_valid_address(&self, addr: usize, order: usize) -> (r: bool)
        requires
            self.wf(),
            order <= MAX_ORDER,
        ensures
            r == (self.spec_heap_start() <= addr && addr + block_size(order as nat) <= self.heap_end()),
    {
        let block_size = self.order_to_size(order);
        let end = self.heap_start + self.heap_size;
        addr >= self.heap_start && block_size <= end && addr <= end - block_size
    }

    /// Find a specific block in the free list of the given order and remove it.
    pub fn find_and_remove_buddy(&mut self, addr: usize, order: usize) -> (r: Option<usize>)
        requires
            old(self).lists().len() == 11,
            order <= MAX_ORDER,
        ensures
            r == (if old(self).lists()[order as int].contains(addr) {
                Some(addr)
            } else {
                None::<usize>
            }),
            final(self).lists() == (if old(self).lists()[order as int].contains(addr) {
                old(self).lists().update(order as int, old(self).lists()[order as int].remove_value(addr))
            } else {
                old(self).lists()
            }),
            final(self).live_blocks() == old(self).live_blocks(),
            final(self).spec_heap_start() == old(self).spec_heap_start(),
            final(self).spec_heap_size() == old(self).spec_heap_size(),
            final(self).spec_canaries_enabled() == old(self).spec_canaries_enabled(),
    {
        let ghost l0 = self.lists();
        let ghost lo = l0[order as int];
        let n = self.free_lists[order].len();
        let mut i: usize = 0;
        while i < n
            invariant
                self.lists() == l0,
                l0 == old(self).lists(),
                lo == l0[order as int],
                n == lo.len(),
                i <= n,
                order <= MAX_ORDER,
                l0.len() == 11,
                forall|k: int| 0 <= k < i ==> lo[k] != addr,
                self.live_blocks() == old(self).live_blocks(),
                self.spec_heap_start() == old(self).spec_heap_start(),
                self.spec_heap_size() == old(self).spec_heap_size(),
                self.spec_canaries_enabled() == old(self).spec_canaries_enabled(),
            decreases n - i,
        {
            if self.free_lists[order][i] == addr {
                proof {
                    assert(lo[i as int] == addr);
                    assert(lo.contains(addr));
                    lo.index_of_first_ensures(addr);
                    let f = lo.index_of_first(addr)->0;
                    assert(f == i as int);
                }
                let _ = self.free_lists[order].remove(i);
                proof {
                    assert(self.lists() =~= l0.update(order as int, lo.remove_value(addr)));
                }
                return Some(addr);
            }
            i = i + 1;
        }
        proof {
            assert(!lo.contains(addr));
        }
        None
    }

    /// Coalesce a pending block with its free buddies and add the result to a free list.
    fn coalesce_and_free(&mut self, block: usize, order: usize)
        requires
            old(self).lists().len() == 11,
            old(self).heap_end() <= usize::MAX,
            order <= MAX_ORDER,
            layout_ok(
                old(self).lists(),
                old(self).live_blocks(),
                old(self).spec_heap_start() as int,
                old(self).heap_end(),
            ),
            pending_ok(
                old(self).lists(),
                old(self).live_blocks(),
                old(self).spec_heap_start() as int,
                old(self).heap_end(),
                block as int,
                order as nat,
            ),
            old(self).free_bytes() + block_size(order as nat) + live_bytes(old(self).live_blocks())
                <= old(self).spec_heap_size(),
        ensures
            final(self).wf(),
            final(self).lists() == freed_lists(
                old(self).lists(),
                old(self).spec_heap_start() as int,
                old(self).heap_end(),
                block,
                order as nat,
            ),
            final(self).live_blocks() == old(self).live_blocks(),
            final(self).spec_heap_start() == old(self).spec_heap_start(),
            final(self).spec_heap_size() == old(self).spec_heap_size(),
            final(self).spec_canaries_enabled() == old(self).spec_canaries_enabled(),
    {
        let ghost l0 = self.lists();
        let ghost hs = self.heap_start as int;
        let ghost he = self.heap_end();
        let ghost live = self.live_blocks();
        let mut current_addr = block;
        let mut order = order;
        let ghost order0 = order as nat;
        loop
            invariant
                self.lists().len() == 11,
                order <= MAX_ORDER,
                hs == self.heap_start,
                he == self.heap_end(),
                he <= usize::MAX,
                live == self.live_blocks(),
                self.spec_heap_size() == old(self).spec_heap_size(),
                self.spec_canaries_enabled() == old(self).spec_canaries_enabled(),
                layout_ok(self.lists(), live, hs, he),
                pending_ok(self.lists(), live, hs, he, current_addr as int, order as nat),
                self.free_bytes() + block_size(order as nat) + live_bytes(live) <= self.spec_heap_size(),
                coalesce(l0, hs, he, block, order0) == coalesce(self.lists(), hs, he, current_addr, order as nat),
            ensures
                self.lists().len() == 11,
                order <= MAX_ORDER,
                hs == self.heap_start,
                he == self.heap_end(),
                he <= usize::MAX,
                live == self.live_blocks(),
                self.spec_heap_size() == old(self).spec_heap_size(),
                self.spec_canaries_enabled() == old(self).spec_canaries_enabled(),
                layout_ok(self.lists(), live, hs, he),
                pending_ok(self.lists(), live, hs, he, current_addr as int, order as nat),
                self.free_bytes() + block_size(order as nat) + live_bytes(live) <= self.spec_heap_size(),
                coalesce(l0, hs, he, block, order0) == (self.lists(), current_addr, order as nat),
            decreases MAX_ORDER - order,
        {
            if order >= MAX_ORDER {
                break;
            }
            let buddy_addr = self.buddy_address(current_addr, order);
            if !self.is_valid_address(buddy_addr, order) {
                break;
            }
            let ghost lb = self.lists();
            match self.find_and_remove_buddy(buddy_addr, order) {
                Some(b) => {
                    proof {
                        lemma_merge_buddy(lb, live, hs, he, current_addr, order as nat);
                        lemma_free_bytes_update(lb, self.lists(), order as int, -1, 11);
                    }
                    current_addr = if current_addr <= b { current_addr } else { b };
                    order = order + 1;
                },
                None => {
                    break;
                },
            }
        }
        let ghost lf = self.lists();
        self.add_to_free_list(current_addr, order);
        proof {
            lemma_push_pending(lf, live, hs, he, current_addr, order as nat);
            lemma_free_bytes_update(lf, self.lists(), order as int, 1, 11);
        }
    }

    /// Deallocate a block previously returned by `allocate` for an allocation of `size`
    /// bytes, coalescing it with free buddies. Checking the heap canaries of the block
    /// is left to the caller.
    pub fn deallocate(&mut self, addr: usize, size: usize)
        requires
            old(self).wf(),
            old(self).can_free(addr, size),
        ensures
            final(self).wf(),
            final(self).spec_heap_start() == old(self).spec_heap_start(),
            final(self).spec_heap_size() == old(self).spec_heap_size(),
            final(self).spec_canaries_enabled() == old(self).spec_canaries_enabled(),
            ({
                let b = old(self).freed_block(addr);
                let o = order_of(old(self).freed_total(size) as nat);
                if old(self).frees_block(size) {
                    &&& final(self).lists() == freed_lists(
                        old(self).lists(),
                        old(self).spec_heap_start() as int,
                        old(self).heap_end(),
                        b as usize,
                        o,
                    )
                    &&& final(self).live_blocks() == old(self).live_blocks().remove_value((b as usize, o))
                } else {
                    &&& final(self).lists() == old(self).lists()
                    &&& final(self).live_blocks() == old(self).live_blocks()
                }
            }),
    {
        if size == 0 {
            return;
        }
        let canaries_enabled = self.canaries_enabled;
        if canaries_enabled && size > usize::MAX - TOTAL_CANARY_OVERHEAD {
            return;
        }
        let (block_addr, total_size) = if canaries_enabled {
            if addr < CANARY_SIZE {
                proof {
                    if order_of((size + 16) as nat) <= 10 {
                        assert(false);
                    }
                }
                return;
            }
            (addr - CANARY_SIZE, size + TOTAL_CANARY_OVERHEAD)
        } else {
            (addr, size)
        };
        let order = self.size_to_order(total_size);
        if order > MAX_ORDER {
            return;
        }
        let ghost live0 = self.live_blocks();
        let ghost key = (block_addr, order as nat);
        proof {
            live0.index_of_first_ensures(key);
            let j = live0.index_of_first(key)->0;
            assert(live0.remove_value(key) == live0.remove(j));
            lemma_release_live(self.lists(), live0, self.heap_start as int, self.heap_end(), j);
            lemma_live_bytes_remove(live0, j);
            self.live@ = live0.remove(j);
        }
        self.coalesce_and_free(block_addr, order);
    }

    /// Turn heap canaries on or off for the allocations that follow.
    pub fn set_canaries_enabled(&mut self, enabled: bool)
        requires
            old(self).wf(),
        ensures
            final(self).wf(),
            final(self).spec_canaries_enabled() == enabled,
            final(self).lists() == old(self).lists(),
            final(self).live_blocks() == old(self).live_blocks(),
            final(self).spec_heap_start() == old(self).spec_heap_start(),
            final(self).spec_heap_size() == old(self).spec_heap_size(),
    {
        self.canaries_enabled = enabled;
    }

    /// Initialize the allocator with the memory region `[heap_start, heap_start + heap_size)`.
    ///
    /// Buddy addresses are computed by XOR with the block size, which is only meaningful for
    /// blocks aligned to their size; the heap therefore starts on a 64KB boundary.
    /// No allocation may be live: this is called once, before any allocation.
    pub fn init(&mut self, heap_start: usize, heap_size: usize)
        requires
            old(self).wf(),
            old(self).live_blocks().len() == 0,
            heap_start + heap_size <= usize::MAX,
            heap_start % 65536 == 0,
        ensures
            final(self).wf(),
            final(self).spec_heap_start() == heap_start,
            final(self).spec_heap_size() == heap_size,
            final(self).spec_canaries_enabled() == old(self).spec_canaries_enabled(),
            final(self).live_blocks().len() == 0,
            final(self).lists() == initial_lists(
                Seq::new(11, |o: int| Seq::<usize>::empty()),
                heap_start as int,
                heap_size as int,
            ),
    {
        self.heap_start = heap_start;
        self.heap_size = heap_size;
        let mut i: usize = 0;
        while i < NUM_ORDERS
            invariant
                i <= NUM_ORDERS,
                self.free_lists@.len() == 11,
                forall|k: int| 0 <= k < i ==> (#[trigger] self.free_lists@[k])@.len() == 0,
                self.heap_start == heap_start,
                self.heap_size == heap_size,
                self.live@.len() == 0,
                self.canaries_enabled == old(self).spec_canaries_enabled(),
            decreases NUM_ORDERS - i,
        {
            self.free_lists.set(i, Vec::new());
            i = i + 1;
        }
        proof {
            assert forall|k: int| 0 <= k < 11 implies #[trigger] self.lists()[k] =~= Seq::<usize>::empty() by {
                assert(self.free_lists@[k]@.len() == 0);
            }
            assert(self.lists() =~= Seq::new(11, |o: int| Seq::<usize>::empty()));
            lemma_free_bytes_empty(self.lists(), 11);
        }
        self.add_initial_blocks(heap_start, heap_size);
    }

    /// Add the region `[addr, addr + size)` to the free lists as blocks, largest first.
    fn add_initial_blocks(&mut self, addr: usize, size: usize)
        requires
            old(self).lists().len() == 11,
            old(self).heap_end() <= usize::MAX,
            old(self).live_blocks().len() == 0,
            addr + size == old(self).heap_end(),
            addr >= old(self).spec_heap_start(),
            addr % 65536 == 0,
            layout_ok(old(self).lists(), old(self).live_blocks(), old(self).spec_heap_start() as int, old(self).heap_end()),
            forall|o: int, i: int|
                0 <= o < 11 && 0 <= i < old(self).lists()[o].len() ==> #[trigger] old(self).lists()[o][i]
                    + block_size(o as nat) <= addr,
            old(self).free_bytes() == addr - old(self).spec_heap_start(),
        ensures
            final(self).wf(),
            final(self).lists() == initial_lists(old(self).lists(), addr as int, size as int),
            final(self).live_blocks() == old(self).live_blocks(),
            final(self).spec_heap_start() == old(self).spec_heap_start(),
            final(self).spec_heap_size() == old(self).spec_heap_size(),
            final(self).spec_canaries_enabled() == old(self).spec_canaries_enabled(),
    {
        let ghost l0 = self.lists();
        let ghost hs = self.heap_start as int;
        let ghost he = self.heap_end();
        let ghost a0 = addr as int;
        let ghost s0 = size as int;
        let mut addr = addr;
        let mut size = size;
        loop
            invariant
                self.lists().len() == 11,
                hs == self.heap_start,
                he == self.heap_end(),
                he <= usize::MAX,
                self.live_blocks() == old(self).live_blocks(),
                self.live_blocks().len() == 0,
                self.spec_heap_size() == old(self).spec_heap_size(),
                self.spec_canaries_enabled() == old(self).spec_canaries_enabled(),
                addr + size == he,
                addr >= hs,
                size > 0 ==> addr % 65536 == 0,
                layout_ok(self.lists(), self.live_blocks(), hs, he),
                forall|o: int, i: int|
                    0 <= o < 11 && 0 <= i < self.lists()[o].len() ==> #[trigger] self.lists()[o][i]
                        + block_size(o as nat) <= addr,
                self.free_bytes() == addr - hs,
                initial_lists(l0, a0, s0) == initial_lists(
                    self.lists(),
                    addr as int,
                    size as int,
                ),
            ensures
                self.lists().len() == 11,
                hs == self.heap_start,
                he == self.heap_end(),
                self.live_blocks() == old(self).live_blocks(),
                self.live_blocks().len() == 0,
                self.spec_heap_size() == old(self).spec_heap_size(),
                self.spec_canaries_enabled() == old(self).spec_canaries_enabled(),
                layout_ok(self.lists(), self.live_blocks(), hs, he),
                self.free_bytes() <= self.spec_heap_size(),
                initial_lists(l0, a0, s0) == self.lists(),
            decreases size,
        {
            if size < MIN_BLOCK_SIZE {
                break;
            }
            let o = self.size_to_order(size);
            let order = if o < MAX_ORDER { o } else { MAX_ORDER };
            let bsize = self.order_to_size(order);
            proof {
                lemma_block_size_le(0, order as nat);
            }
            if bsize <= size {
                proof {
                    lemma_block_size_le(order as nat, 10);
                    lemma_block_sizes();
                    lemma_align_add(addr as int, bsize as int, 65536);
                    if order < 10 {
                        lemma_units_cover(size as nat, order as nat);
                    }
                    let l = self.lists();
                    let nl = l.update(order as int, l[order as int].push(addr));
                    assert(pending_ok(l, self.live_blocks(), hs, he, addr as int, order as nat)) by {
                        assert forall|k: int, i: int| 0 <= k < 11 && 0 <= i < l[k].len() implies disjoint_blocks(
                            addr as int,
                            order as nat,
                            #[trigger] l[k][i] as int,
                            k as nat,
                        ) by {
                            assert(l[k][i] + block_size(k as nat) <= addr);
                        }
                    }
                    lemma_push_pending(l, self.live_blocks(), hs, he, addr, order as nat);
                    lemma_free_bytes_update(l, nl, order as int, 1, 11);
                    assert forall|k: int, i: int| 0 <= k < 11 && 0 <= i < nl[k].len() implies #[trigger] nl[k][i]
                        + block_size(k as nat) <= addr + bsize by {
                        if k == order && i == l[k].len() {
                        } else {
                            assert(nl[k][i] == l[k][i]);
                            assert(l[k][i] + block_size(k as nat) <= addr);
                        }
                    }
                }
                self.add_to_free_list(addr, order);
                addr = addr + bsize;
                size = size - bsize;
            } else {
                break;
            }
        }
    }

    /// Get statistics about the allocator.
    pub fn stats(&self) -> (r: BuddyStats)
        requires
            self.wf(),
        ensures
            r.total_bytes == self.spec_heap_size(),
            r.free_bytes == self.free_bytes(),
            r.used_bytes == self.spec_heap_size() - self.free_bytes(),
            r.free_blocks == free_count_upto(self.lists(), 11),
    {
        let mut free_blocks: usize = 0;
        let mut free_bytes: usize = 0;
        let mut order: usize = 0;
        proof {
            lemma_free_count_le(self.lists(), 11);
            lemma_live_bytes_nonneg(self.live_blocks());
        }
        while order <= MAX_ORDER
            invariant
                self.wf(),
                self.free_bytes() <= self.spec_heap_size(),
                64 * free_count_upto(self.lists(), 11) <= self.free_bytes(),
                order <= 11,
                free_bytes == free_bytes_upto(self.lists(), order as nat),
                free_blocks == free_count_upto(self.lists(), order as nat),
            decreases 11 - order,
        {
            let count = self.free_lists[order].len();
            proof {
                lemma_free_bytes_prefix(self.lists(), (order + 1) as nat);
                lemma_free_count_prefix(self.lists(), (order + 1) as nat);
                lemma_free_count_le(self.lists(), (order + 1) as nat);
                lemma_block_size_le(0, order as nat);
            }
            let size = self.order_to_size(order);
            free_blocks = free_blocks + count;
            free_bytes = free_bytes + count * size;
            order = order + 1;
        }
        BuddyStats {
            total_bytes: self.heap_size,
            free_bytes,
            used_bytes: self.heap_size - free_bytes,
            free_blocks,
        }
    }
}

} // verus!
