//! # Entropy - Random Number Generation for Security
//!
//! Random numbers for ASLR and other security features: a hardware entropy
//! source and a ChaCha8-based generator seeded from it.
use vstd::prelude::*;

verus! {

/// Declares `std::time::SystemTime`, a reading of the system clock.
#[verifier::external_type_specification]
#[verifier::external_body]
pub struct ExSystemTime(std::time::SystemTime);

/// Declares `x86_64::instructions::random::RdRand`, the RDRAND instruction's handle.
#[verifier::external_type_specification]
#[verifier::external_body]
pub struct ExRdRand(x86_64::instructions::random::RdRand);

/// `std::time::SystemTime::now`: the current time; nothing is promised of it.
#[verifier::external_body]
fn system_time_now() -> std::time::SystemTime {
    std::time::SystemTime::now()
}

/// `SystemTime::duration_since(UNIX_EPOCH)`: the time since the epoch, `None` for
/// a clock set before it. Nothing is promised of the value.
#[verifier::external_body]
fn since_epoch(t: std::time::SystemTime) -> Option<core::time::Duration> {
    match t.duration_since(std::time::UNIX_EPOCH) {
        Ok(d) => Some(d),
        Err(_) => None,
    }
}

/// `Duration::as_nanos`: the duration in nanoseconds. Nothing is stated of it:
/// the duration itself is opaque here.
#[verifier::external_body]
fn duration_nanos(d: core::time::Duration) -> u128 {
    d.as_nanos()
}

/// `x86_64::instructions::random::RdRand::new`: a handle when the CPU has RDRAND
/// (CPUID leaf 1, ECX bit 30), `None` otherwise. Nothing is promised of which.
#[verifier::external_body]
fn rdrand_handle() -> Option<x86_64::instructions::random::RdRand> {
    x86_64::instructions::random::RdRand::new()
}

/// `RdRand::get_u64`: a hardware random value, or `None` when the instruction
/// reports failure. Nothing is promised of the outcome.
#[verifier::external_body]
fn rdrand_u64(r: x86_64::instructions::random::RdRand) -> Option<u64> {
    r.get_u64()
}

/// The value `HardwareRng::range` gives for the drawn value `v`: `min` for an
/// empty range, else `min` plus `v` reduced modulo the range's width.
pub open spec fn range_value(v: usize, min: usize, max: usize) -> usize {
    if min >= max {
        min
    } else {
        (min + v % ((max - min) as usize)) as usize
    }
}

/// Map a drawn value into `[min, max)` (`min` when the range is empty).
pub fn range_from(v: usize, min: usize, max: usize) -> (r: usize)
    ensures
        r == range_value(v, min, max),
        min < max ==> min <= r < max,
{
    if min >= max {
        return min;
    }
    let width = max - min;
    min + v % width
}

/// Hardware entropy source.
pub struct HardwareRng;

impl HardwareRng {
    /// A random value from the RDRAND instruction, tried up to ten times; `None`
    /// when the CPU lacks it or every try fails.
    pub fn try_u64() -> Option<u64> {
        let handle = match rdrand_handle() {
            None => return None,
            Some(h) => h,
        };
        let mut tries: u32 = 0;
        while tries < 10
            decreases 10 - tries,
        {
            match rdrand_u64(handle) {
                Some(v) => return Some(v),
                None => {},
            }
            tries = tries + 1;
        }
        None
    }

    /// Fast non-blocking entropy: the system clock in nanoseconds since the epoch
    /// (0 for a clock before it). Nothing is promised of the value.
    pub fn fast_u64() -> u64 {
        match since_epoch(system_time_now()) {
            Some(d) => duration_nanos(d) as u64,
            None => 0,
        }
    }

    /// Random u64: RDRAND when it succeeds, the fast clock source otherwise.
    pub fn u64() -> u64 {
        match Self::try_u64() {
            Some(v) => v,
            None => Self::fast_u64(),
        }
    }

    /// Random u32: the low 32 bits of `u64()`.
    pub fn u32() -> u32 {
        Self::u64() as u32
    }

    /// Random usize: `u64()` converted to usize.
    pub fn usize() -> usize {
        Self::u64() as usize
    }

    /// Random value in `[min, max)`; `min` when the range is empty. The value is
    /// `range_from` of a drawn `usize`.
    pub fn range(min: usize, max: usize) -> (r: usize)
        ensures
            min >= max ==> r == min,
            min < max ==> min <= r < max && exists|v: usize| #[trigger] range_value(v, min, max) == r,
    {
        if min >= max {
            return min;
        }
        let v = Self::usize();
        range_from(v, min, max)
    }
}

/// Rotate a 32-bit word left by `n` bits (0 < n < 32).
pub open spec fn rotl(x: u32, n: u32) -> u32 {
    (x << n) | (x >> (32u32 - n) as u32)
}

/// One ChaCha quarter round on words `a`, `b`, `c`, `d` of the state.
pub open spec fn quarter_round_spec(s: Seq<u32>, a: int, b: int, c: int, d: int) -> Seq<u32> {
    let s = s.update(a, s[a].wrapping_add(s[b]));
    let s = s.update(d, rotl(s[d] ^ s[a], 16));
    let s = s.update(c, s[c].wrapping_add(s[d]));
    let s = s.update(b, rotl(s[b] ^ s[c], 12));
    let s = s.update(a, s[a].wrapping_add(s[b]));
    let s = s.update(d, rotl(s[d] ^ s[a], 8));
    let s = s.update(c, s[c].wrapping_add(s[d]));
    s.update(b, rotl(s[b] ^ s[c], 7))
}

/// A ChaCha double round: four column rounds, then four diagonal rounds.
pub open spec fn double_round_spec(s: Seq<u32>) -> Seq<u32> {
    let s = quarter_round_spec(s, 0, 4, 8, 12);
    let s = quarter_round_spec(s, 1, 5, 9, 13);
    let s = quarter_round_spec(s, 2, 6, 10, 14);
    let s = quarter_round_spec(s, 3, 7, 11, 15);
    let s = quarter_round_spec(s, 0, 5, 10, 15);
    let s = quarter_round_spec(s, 1, 6, 11, 12);
    let s = quarter_round_spec(s, 2, 7, 8, 13);
    quarter_round_spec(s, 3, 4, 9, 14)
}

/// `n` double rounds.
pub open spec fn rounds_spec(s: Seq<u32>, n: nat) -> Seq<u32>
    decreases n,
{
    if n == 0 {
        s
    } else {
        double_round_spec(rounds_spec(s, (n - 1) as nat))
    }
}

/// The 16 output words of a ChaCha8 block: 4 double rounds, plus the input state.
pub open spec fn block_words_spec(state: Seq<u32>) -> Seq<u32> {
    Seq::new(16, |i: int| rounds_spec(state, 4)[i].wrapping_add(state[i]))
}

/// Byte `k` (little-endian) of a word.
pub open spec fn word_byte(w: u32, k: int) -> u8 {
    if k == 0 {
        (w & 0xFF) as u8
    } else if k == 1 {
        ((w >> 8u32) & 0xFF) as u8
    } else if k == 2 {
        ((w >> 16u32) & 0xFF) as u8
    } else {
        ((w >> 24u32) & 0xFF) as u8
    }
}

/// The 64 bytes of a ChaCha8 block for the given state.
pub open spec fn block_bytes_spec(state: Seq<u32>) -> Seq<u8> {
    let w = block_words_spec(state);
    Seq::new(64, |i: int| word_byte(w[i / 4], i % 4))
}

/// The state after a block: the 64-bit block counter in words 12 and 13 advances by one.
pub open spec fn next_counter_spec(state: Seq<u32>) -> Seq<u32> {
    let s = state.update(12, state[12].wrapping_add(1));
    if s[12] == 0 {
        s.update(13, s[13].wrapping_add(1))
    } else {
        s
    }
}

/// The little-endian u64 made of bytes `p .. p + 8` of the buffer.
pub open spec fn le64_spec(b: Seq<u8>, p: int) -> u64 {
    (b[p] as u64) | ((b[p + 1] as u64) << 8u64) | ((b[p + 2] as u64) << 16u64) | ((b[p + 3] as u64) << 24u64)
        | ((b[p + 4] as u64) << 32u64) | ((b[p + 5] as u64) << 40u64) | ((b[p + 6] as u64) << 48u64) | ((b[p
        + 7] as u64) << 56u64)
}

/// The initial ChaCha state for a seed and a timestamp.
pub open spec fn seeded_state_spec(seed: u64, timestamp: u64) -> Seq<u32> {
    seq![
        0x61707865u32, 0x3320646eu32, 0x79622d32u32, 0x6b206574u32,
        seed as u32, (seed >> 32u64) as u32, seed as u32, (seed >> 32u64) as u32,
        timestamp as u32, (timestamp >> 32u64) as u32,
        0u32, 0u32, 0u32, 0u32, 0u32, 0u32,
    ]
}

/// The `k`-th 32-bit output (from 0, `k < 8`) of a generator freshly seeded with
/// `seed`: the low half of the `k`-th 64-bit word of its first block.
pub open spec fn seeded_u32(seed: u64, k: int) -> u32 {
    le64_spec(block_bytes_spec(seeded_state_spec(seed, 0)), 8 * k) as u32
}

/// The values a generator yields from a given state, buffer and read position: the
/// `k`-th (from 0) is the one the `k`-th following call of `next_u64` returns.
pub open spec fn stream_at(state: Seq<u32>, buffer: Seq<u8>, pos: nat, k: nat) -> u64
    decreases k,
{
    if pos + 8 > 64 {
        if k == 0 {
            le64_spec(block_bytes_spec(state), 0)
        } else {
            stream_at(next_counter_spec(state), block_bytes_spec(state), 8, (k - 1) as nat)
        }
    } else {
        if k == 0 {
            le64_spec(buffer, pos as int)
        } else {
            stream_at(state, buffer, pos + 8, (k - 1) as nat)
        }
    }
}

/// The `k`-th value (from 0) that a generator freshly seeded with `seed` yields.
pub open spec fn seeded_stream(seed: u64, k: nat) -> u64 {
    stream_at(seeded_state_spec(seed, 0), Seq::empty(), 64, k)
}

/// ChaCha8-based pseudo-random generator.
pub struct ChaCha8Rng {
    state: [u32; 16],
    buffer: [u8; 64],
    buffer_pos: usize,
}

impl ChaCha8Rng {
    pub closed spec fn spec_state(self) -> Seq<u32> {
        self.state@
    }

    pub closed spec fn spec_buffer(self) -> Seq<u8> {
        self.buffer@
    }

    pub closed spec fn spec_pos(self) -> nat {
        self.buffer_pos as nat
    }

    /// The generator's invariant: the read position lies within the buffer.
    pub open spec fn wf(self) -> bool {
        self.spec_pos() <= 64 && self.spec_state().len() == 16 && self.spec_buffer().len() == 64
    }

    /// The value the next call of `next_u64` returns.
    pub open spec fn next_value(self) -> u64 {
        if self.spec_pos() + 8 > 64 {
            le64_spec(block_bytes_spec(self.spec_state()), 0)
        } else {
            le64_spec(self.spec_buffer(), self.spec_pos() as int)
        }
    }

    /// The generator's state after the next call of `next_u64`.
    pub open spec fn next_rng(self, after: Self) -> bool {
        if self.spec_pos() + 8 > 64 {
            &&& after.spec_state() == next_counter_spec(self.spec_state())
            &&& after.spec_buffer() == block_bytes_spec(self.spec_state())
            &&& after.spec_pos() == 8
        } else {
            &&& after.spec_state() == self.spec_state()
            &&& after.spec_buffer() == self.spec_buffer()
            &&& after.spec_pos() == self.spec_pos() + 8
        }
    }

    /// The `k`-th value (from 0) that this generator yields from now on.
    pub open spec fn stream(self, k: nat) -> u64 {
        stream_at(self.spec_state(), self.spec_buffer(), self.spec_pos(), k)
    }

    /// One draw yields the first value of the stream and leaves the rest of it.
    pub proof fn lemma_stream_advances(a: Self, a1: Self, k: nat)
        requires
            a.next_rng(a1),
        ensures
            a.next_value() == a.stream(0),
            a1.stream(k) == a.stream(k + 1),
    {
    }

    /// A generator freshly seeded with `seed` (read position at the end of its buffer)
    /// yields the stream of that seed, whatever its buffer holds.
    pub proof fn lemma_seeded_stream(a: Self, seed: u64, k: nat)
        requires
            a.spec_state() == seeded_state_spec(seed, 0),
            a.spec_pos() == 64,
        ensures
            a.stream(k) == seeded_stream(seed, k),
    {
    }

    /// Two generators seeded with the same seed yield the same values at every draw.
    pub proof fn lemma_same_seed_same_stream(a: Self, b: Self, seed: u64, k: nat)
        requires
            a.spec_state() == seeded_state_spec(seed, 0),
            a.spec_pos() == 64,
            b.spec_state() == seeded_state_spec(seed, 0),
            b.spec_pos() == 64,
        ensures
            a.stream(k) == b.stream(k),
    {
        Self::lemma_seeded_stream(a, seed, k);
        Self::lemma_seeded_stream(b, seed, k);
    }

    /// Create a new ChaCha8 RNG seeded from hardware entropy.
    pub fn from_hardware() -> (r: Self)
        ensures
            r.wf(),
            r.spec_pos() == 64,
            exists|seed: u64| #[trigger] seeded_state_spec(seed, 0) == r.spec_state(),
    {
        let seed = HardwareRng::u64();
        Self::from_seed(seed)
    }

    /// Create a ChaCha8 RNG seeded from the fast clock source alone (boot-safe: no RDRAND).
    pub fn from_hardware_fast() -> (r: Self)
        ensures
            r.wf(),
            r.spec_pos() == 64,
            exists|seed: u64| #[trigger] seeded_state_spec(seed, 0) == r.spec_state(),
    {
        let seed = HardwareRng::fast_u64();
        Self::from_seed(seed)
    }

    /// Create a new ChaCha8 RNG from a 64-bit seed. The same seed always gives the
    /// same sequence: the timestamp words of the state are zero.
    pub fn from_seed(seed: u64) -> (r: Self)
        ensures
            r.wf(),
            r.spec_pos() == 64,
            r.spec_state() == seeded_state_spec(seed, 0),
            forall|k: nat| #[trigger] r.stream(k) == seeded_stream(seed, k),
    {
        let r = Self::from_seed_and_timestamp(seed, 0);
        proof {
            assert forall|k: nat| #[trigger] r.stream(k) == seeded_stream(seed, k) by {
                Self::lemma_seeded_stream(r, seed, k);
            }
        }
        r
    }

    /// Create a ChaCha8 RNG from a seed and a timestamp; the first call of `next_u64`
    /// generates a block.
    pub fn from_seed_and_timestamp(seed: u64, timestamp: u64) -> (r: Self)
        ensures
            r.wf(),
            r.spec_pos() == 64,
            r.spec_state() == seeded_state_spec(seed, timestamp),
    {
        let r = ChaCha8Rng {
            state: [
                0x61707865,
                0x3320646e,
                0x79622d32,
                0x6b206574,
                seed as u32,
                (seed >> 32) as u32,
                seed as u32,
                (seed >> 32) as u32,
                timestamp as u32,
                (timestamp >> 32) as u32,
                0,
                0,
                0,
                0,
                0,
                0,
            ],
            buffer: [0; 64],
            buffer_pos: 64,
        };
        assert(r.state@ =~= seeded_state_spec(seed, timestamp));
        r
    }

    /// One quarter round on the working state.
    fn quarter_round(state: &mut [u32; 16], a: usize, b: usize, c: usize, d: usize)
        requires
            a < 16,
            b < 16,
            c < 16,
            d < 16,
        ensures
            final(state)@ == quarter_round_spec(old(state)@, a as int, b as int, c as int, d as int),
    {
        state[a] = state[a].wrapping_add(state[b]);
        let x = state[d] ^ state[a];
        state[d] = (x << 16u32) | (x >> 16u32);
        state[c] = state[c].wrapping_add(state[d]);
        let x = state[b] ^ state[c];
        state[b] = (x << 12u32) | (x >> 20u32);
        state[a] = state[a].wrapping_add(state[b]);
        let x = state[d] ^ state[a];
        state[d] = (x << 8u32) | (x >> 24u32);
        state[c] = state[c].wrapping_add(state[d]);
        let x = state[b] ^ state[c];
        state[b] = (x << 7u32) | (x >> 25u32);
    }

    /// Generate the next 64-byte block into the buffer and advance the counter.
    fn generate_block(&mut self)
        requires
            old(self).wf(),
        ensures
            final(self).wf(),
            final(self).spec_state() == next_counter_spec(old(self).spec_state()),
            final(self).spec_buffer() == block_bytes_spec(old(self).spec_state()),
            final(self).spec_pos() == 0,
    {
        let mut working = self.state;
        let ghost s0 = self.state@;
        let mut round: usize = 0;
        while round < 4
            invariant
                round <= 4,
                working@ == rounds_spec(s0, round as nat),
                working@.len() == 16,
                self.state@ == s0,
            decreases 4 - round,
        {
            Self::quarter_round(&mut working, 0, 4, 8, 12);
            Self::quarter_round(&mut working, 1, 5, 9, 13);
            Self::quarter_round(&mut working, 2, 6, 10, 14);
            Self::quarter_round(&mut working, 3, 7, 11, 15);
            Self::quarter_round(&mut working, 0, 5, 10, 15);
            Self::quarter_round(&mut working, 1, 6, 11, 12);
            Self::quarter_round(&mut working, 2, 7, 8, 13);
            Self::quarter_round(&mut working, 3, 4, 9, 14);
            round = round + 1;
        }
        let ghost mixed = working@;
        let mut i: usize = 0;
        while i < 16
            invariant
                i <= 16,
                working@.len() == 16,
                self.state@ == s0,
                mixed == rounds_spec(s0, 4),
                forall|k: int| 0 <= k < i ==> #[trigger] working@[k] == mixed[k].wrapping_add(s0[k]),
                forall|k: int| i <= k < 16 ==> #[trigger] working@[k] == mixed[k],
            decreases 16 - i,
        {
            working[i] = working[i].wrapping_add(self.state[i]);
            i = i + 1;
        }
        assert(working@ =~= block_words_spec(s0));
        let ghost words = working@;
        let mut i: usize = 0;
        while i < 16
            invariant
                i <= 16,
                working@ == words,
                words == block_words_spec(s0),
                self.state@ == s0,
                self.buffer@.len() == 64,
                forall|k: int| 0 <= k < 4 * i ==> #[trigger] self.buffer@[k] == word_byte(words[k / 4], k % 4),
            decreases 16 - i,
        {
            let word = working[i];
            self.buffer[i * 4] = (word & 0xFF) as u8;
            self.buffer[i * 4 + 1] = ((word >> 8u32) & 0xFF) as u8;
            self.buffer[i * 4 + 2] = ((word >> 16u32) & 0xFF) as u8;
            self.buffer[i * 4 + 3] = ((word >> 24u32) & 0xFF) as u8;
            i = i + 1;
        }
        assert(self.buffer@ =~= block_bytes_spec(s0));
        self.state[12] = self.state[12].wrapping_add(1);
        if self.state[12] == 0 {
            self.state[13] = self.state[13].wrapping_add(1);
        }
        assert(self.state@ =~= next_counter_spec(s0));
        self.buffer_pos = 0;
    }

    /// Get the next random u64 (little-endian bytes from the current block).
    pub fn next_u64(&mut self) -> (r: u64)
        requires
            old(self).wf(),
        ensures
            final(self).wf(),
            r == old(self).next_value(),
            old(self).next_rng(*final(self)),
            r == old(self).stream(0),
            forall|k: nat| #[trigger] final(self).stream(k) == old(self).stream(k + 1),
    {
        let ghost before = *self;
        if self.buffer_pos + 8 > 64 {
            self.generate_block();
        }
        let pos = self.buffer_pos;
        let result = (self.buffer[pos] as u64) | ((self.buffer[pos + 1] as u64) << 8u64) | ((
        self.buffer[pos + 2] as u64) << 16u64) | ((self.buffer[pos + 3] as u64) << 24u64) | ((
        self.buffer[pos + 4] as u64) << 32u64) | ((self.buffer[pos + 5] as u64) << 40u64) | ((
        self.buffer[pos + 6] as u64) << 48u64) | ((self.buffer[pos + 7] as u64) << 56u64);
        self.buffer_pos = self.buffer_pos + 8;
        proof {
            assert forall|k: nat| #[trigger] self.stream(k) == before.stream(k + 1) by {
                Self::lemma_stream_advances(before, *self, k);
            }
            Self::lemma_stream_advances(before, *self, 0);
        }
        result
    }

    /// Get the next random u32: the low 32 bits of `next_u64`.
    pub fn next_u32(&mut self) -> (r: u32)
        requires
            old(self).wf(),
        ensures
            final(self).wf(),
            r == old(self).next_value() as u32,
            old(self).next_rng(*final(self)),
            forall|k: nat| #[trigger] final(self).stream(k) == old(self).stream(k + 1),
    {
        self.next_u64() as u32
    }

    /// Get the next random usize: `next_u64` converted to usize.
    pub fn next_usize(&mut self) -> (r: usize)
        requires
            old(self).wf(),
        ensures
            final(self).wf(),
            r == old(self).next_value() as usize,
            old(self).next_rng(*final(self)),
            forall|k: nat| #[trigger] final(self).stream(k) == old(self).stream(k + 1),
    {
        self.next_u64() as usize
    }

    /// Random value in `[min, max)`: `min + next_usize() % (max - min)`; `min` when the
    /// range is empty (and then the generator does not advance).
    pub fn range(&mut self, min: usize, max: usize) -> (r: usize)
        requires
            old(self).wf(),
        ensures
            final(self).wf(),
            min >= max ==> r == min && *final(self) == *old(self),
            min < max ==> r == min + (old(self).next_value() as usize) % ((max - min) as usize)
                && old(self).next_rng(*final(self)),
            min < max ==> min <= r < max,
    {
        if min >= max {
            return min;
        }
        let range = max - min;
        min + (self.next_usize() % range)
    }
}

} // verus!
