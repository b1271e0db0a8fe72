//! Capability Sealing - cryptographic protection against forgery.
//!
//! Capabilities are sealed with HMAC-SHA256 under a kernel-only secret key:
//! a seal cannot be produced without the key, and changing the sealed data
//! invalidates it. Verification compares seals in constant time.
use vstd::prelude::*;
use super::entropy::{block_bytes_spec, seeded_state_spec, seeded_u32, ChaCha8Rng};

verus! {

/// The tag `hmac_sha256::HMAC::mac` computes for `input` under key `key`.
pub uninterp spec fn hmac_sha256_mac(input: Seq<u8>, key: Seq<u8>) -> Seq<u8>;

/// `hmac_sha256::HMAC::mac`: a deterministic function of the input and the key,
/// returning a 32-byte tag. The contract names that function and claims nothing else.
#[verifier::external_body]
fn hmac_mac(input: &[u8], key: &[u8; 32]) -> (r: [u8; 32])
    ensures
        r@ == hmac_sha256_mac(input@, key@),
{
    hmac_sha256::HMAC::mac(input, key)
}

/// Byte `j` (0 to 3) of `w`, least significant first.
pub open spec fn word_byte_le(w: u32, j: int) -> u8 {
    if j == 0 {
        (w & 0xFF) as u8
    } else if j == 1 {
        ((w >> 8u32) & 0xFF) as u8
    } else if j == 2 {
        ((w >> 16u32) & 0xFF) as u8
    } else {
        ((w >> 24u32) & 0xFF) as u8
    }
}

/// The seal key a generator seeded with `seed` gives: its first eight 32-bit
/// outputs, each stored little-endian.
pub open spec fn seal_key_of_seed(seed: u64) -> Seq<u8> {
    Seq::new(32, |j: int| word_byte_le(seeded_u32(seed, j / 4), j % 4))
}

/// Capability sealer using HMAC-SHA256.
pub struct CapabilitySealer {
    /// Secret 256-bit key for HMAC (kernel-only, never exposed).
    seal_key: [u8; 32],
}

impl CapabilitySealer {
    /// The secret key.
    pub closed spec fn key(self) -> Seq<u8> {
        self.seal_key@
    }

    /// The seal `seal` gives for `data`: its HMAC-SHA256 under the key.
    pub open spec fn seal_of(self, data: Seq<u8>) -> Seq<u8> {
        hmac_sha256_mac(data, self.key())
    }

    /// Whether `verify` accepts `seal` for `data`.
    pub open spec fn accepts(self, data: Seq<u8>, seal: Seq<u8>) -> bool {
        hmac_sha256_mac(data, self.key()) == seal
    }

    /// Create a new sealer with a random key drawn from a ChaCha8 generator seeded
    /// from hardware entropy.
    pub fn new() -> (r: Self)
        ensures
            r.key().len() == 32,
            exists|seed: u64| #[trigger] seal_key_of_seed(seed) == r.key(),
    {
        let seal_key = Self::generate_seal_key();
        CapabilitySealer { seal_key }
    }

    /// Generate a 256-bit seal key: eight successive `next_u32` values of a fresh
    /// ChaCha8 generator, each stored little-endian.
    fn generate_seal_key() -> (r: [u8; 32])
        ensures
            r@.len() == 32,
            exists|seed: u64| #[trigger] seal_key_of_seed(seed) == r@,
    {
        let mut key = [0u8; 32];
        let mut rng = ChaCha8Rng::from_hardware_fast();
        let ghost seed = choose|seed: u64| #[trigger] seeded_state_spec(seed, 0) == rng.spec_state();
        let ghost block = block_bytes_spec(seeded_state_spec(seed, 0));
        let mut i: usize = 0;
        while i < 8
            invariant
                i <= 8,
                rng.wf(),
                key@.len() == 32,
                i == 0 ==> rng.spec_pos() == 64 && rng.spec_state() == seeded_state_spec(seed, 0),
                i > 0 ==> rng.spec_pos() == 8 * i && rng.spec_buffer() == block,
                block == block_bytes_spec(seeded_state_spec(seed, 0)),
                forall|j: int| 0 <= j < 4 * i ==> #[trigger] key@[j] == seal_key_of_seed(seed)[j],
            decreases 8 - i,
        {
            let random = rng.next_u32();
            assert(random == seeded_u32(seed, i as int));
            let ghost before = key@;
            key[i * 4] = (random & 0xFF) as u8;
            key[i * 4 + 1] = ((random >> 8u32) & 0xFF) as u8;
            key[i * 4 + 2] = ((random >> 16u32) & 0xFF) as u8;
            key[i * 4 + 3] = ((random >> 24u32) & 0xFF) as u8;
            assert forall|j: int| 0 <= j < 4 * (i + 1) implies #[trigger] key@[j] == seal_key_of_seed(seed)[j] by {
                if j < 4 * i {
                    assert(key@[j] == before[j]);
                }
            }
            i = i + 1;
        }
        assert(key@ =~= seal_key_of_seed(seed));
        key
    }

    /// Compute the HMAC-SHA256 seal of capability data.
    pub fn seal(&self, data: &[u8]) -> (r: [u8; 32])
        ensures
            r@ == self.seal_of(data@),
    {
        hmac_mac(data, &self.seal_key)
    }

    /// Verify a capability seal (constant-time comparison).
    pub fn verify(&self, data: &[u8], seal: &[u8; 32]) -> (r: bool)
        ensures
            r == self.accepts(data@, seal@),
    {
        let expected_seal = self.seal(data);
        constant_time_compare(&expected_seal, seal)
    }
}

/// Constant-time equality comparison: all 32 bytes are always compared.
pub fn constant_time_compare(a: &[u8; 32], b: &[u8; 32]) -> (r: bool)
    ensures
        r == (a@ == b@),
{
    let mut diff: u8 = 0;
    let mut i: usize = 0;
    while i < 32
        invariant
            i <= 32,
            a@.len() == 32,
            b@.len() == 32,
            (diff == 0) == (forall|k: int| 0 <= k < i ==> a@[k] == b@[k]),
        decreases 32 - i,
    {
        let x = a[i];
        let y = b[i];
        let d = diff;
        assert(((d | (x ^ y)) == 0) == (d == 0 && x == y)) by (bit_vector);
        diff = diff | (a[i] ^ b[i]);
        i = i + 1;
    }
    if diff == 0 {
        assert(a@ =~= b@);
    }
    diff == 0
}


/// Law: a sealer accepts the seal it made for the same data, and accepts no
/// other seal for that data: `verify(data, s)` holds exactly when `s` is
/// `seal(data)`.
pub proof fn lemma_seal_then_verify(sealer: CapabilitySealer, data: Seq<u8>, other: Seq<u8>)
    ensures
        sealer.accepts(data, sealer.seal_of(data)),
        sealer.accepts(data, other) <==> other == sealer.seal_of(data),
{
}

} // verus!
