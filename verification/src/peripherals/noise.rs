//! Seeded noise sources keyed by `(run_seed, component_id, channel)`, so a run
//! replays bit-identically: the SplitMix64 generator and the per-channel seed
//! derivation (FNV-1a over the key, then one SplitMix64 step).
//!
//! The Gaussian sampling and thermal lag built on top of these work on
//! floating-point values and live outside this verified library.
use vstd::prelude::*;
use vstd::string::StringSliceAdditionalSpecFns;
use vstd::wrapping::u64_specs::{wrapping_add, wrapping_mul};

verus! {

/// SplitMix64 state increment (the 64-bit golden-ratio constant).
pub const GOLDEN_GAMMA: u64 = 0x9E37_79B9_7F4A_7C15;

/// First multiplier of the SplitMix64 output mix.
pub const MIX_MUL_1: u64 = 0xBF58_476D_1CE4_E5B9;

/// Second multiplier of the SplitMix64 output mix.
pub const MIX_MUL_2: u64 = 0x94D0_49BB_1331_11EB;

/// 64-bit FNV-1a offset basis.
pub const FNV_OFFSET_BASIS: u64 = 0xcbf2_9ce4_8422_2325;

/// 64-bit FNV prime.
pub const FNV_PRIME: u64 = 0x0000_0100_0000_01b3;

/// The SplitMix64 output function applied to an advanced state.
pub open spec fn splitmix_mix(z: u64) -> u64 {
    let z1 = wrapping_mul(z ^ (z >> 30u64), MIX_MUL_1);
    let z2 = wrapping_mul(z1 ^ (z1 >> 27u64), MIX_MUL_2);
    z2 ^ (z2 >> 31u64)
}

/// The SplitMix64 state after one draw.
pub open spec fn splitmix_advance(state: u64) -> u64 {
    wrapping_add(state, GOLDEN_GAMMA)
}

/// The first `n` little-endian bytes of `x`.
pub open spec fn le_bytes(x: nat, n: nat) -> Seq<u8>
    decreases n,
{
    if n == 0 {
        Seq::empty()
    } else {
        seq![(x % 256) as u8] + le_bytes(x / 256, (n - 1) as nat)
    }
}

/// 64-bit FNV-1a of `bytes`, continuing from hash state `h`.
pub open spec fn fnv1a(h: u64, bytes: Seq<u8>) -> u64
    decreases bytes.len(),
{
    if bytes.len() == 0 {
        h
    } else {
        wrapping_mul(fnv1a(h, bytes.drop_last()) ^ (bytes.last() as u64), FNV_PRIME)
    }
}

/// The hashed identity of a channel: the run seed's eight little-endian bytes,
/// the component id, `/`, and the channel name.
pub open spec fn channel_key(run_seed: u64, component_id: Seq<u8>, channel: Seq<u8>) -> Seq<u8> {
    le_bytes(run_seed as nat, 8) + component_id + seq![0x2fu8] + channel
}

/// The seed of a channel: the first SplitMix64 output seeded with the FNV-1a
/// hash of its key.
pub open spec fn channel_seed_of(run_seed: u64, component_id: Seq<u8>, channel: Seq<u8>) -> u64 {
    splitmix_mix(
        splitmix_advance(fnv1a(FNV_OFFSET_BASIS, channel_key(run_seed, component_id, channel))),
    )
}

/// SplitMix64: small, fast and deterministic.
#[derive(Debug, Clone)]
pub struct SplitMix64 {
    state: u64,
}

impl SplitMix64 {
    /// The generator's internal state.
    pub closed spec fn state_view(self) -> u64 {
        self.state
    }

    /// A generator whose state is `seed`.
    pub fn new(seed: u64) -> (r: Self)
        ensures
            r.state_view() == seed,
    {
        Self { state: seed }
    }

    /// Advances the state by the golden gamma and returns the mixed state.
    pub fn next_u64(&mut self) -> (r: u64)
        ensures
            final(self).state_view() == splitmix_advance(old(self).state_view()),
            r == splitmix_mix(final(self).state_view()),
    {
        self.state = self.state.wrapping_add(GOLDEN_GAMMA);
        let mut z = self.state;
        z = (z ^ (z >> 30u64)).wrapping_mul(MIX_MUL_1);
        z = (z ^ (z >> 27u64)).wrapping_mul(MIX_MUL_2);
        z ^ (z >> 31u64)
    }
}

/// Derives a channel seed from the run seed and a stable string identity
/// (FNV-1a over the parts, then one SplitMix64 mixing step).
pub fn channel_seed(run_seed: u64, component_id: &str, channel: &str) -> (r: u64)
    ensures
        r == channel_seed_of(run_seed, component_id.spec_bytes(), channel.spec_bytes()),
{
    let mut key: Vec<u8> = Vec::new();
    let mut v: u64 = run_seed;
    let mut i: usize = 0;
    while i < 8
        invariant
            0 <= i <= 8,
            key@ + le_bytes(v as nat, (8 - i) as nat) == le_bytes(run_seed as nat, 8),
        decreases 8 - i,
    {
        let byte = (v % 256) as u8;
        proof {
            assert(le_bytes(v as nat, (8 - i) as nat) == seq![byte] + le_bytes(
                (v / 256) as nat,
                (8 - i - 1) as nat,
            ));
            assert(key@.push(byte) + le_bytes((v / 256) as nat, (8 - i - 1) as nat) =~= key@
                + le_bytes(v as nat, (8 - i) as nat));
        }
        key.push(byte);
        v = v / 256;
        i = i + 1;
    }
    assert(key@ =~= le_bytes(run_seed as nat, 8));
    key.extend_from_slice(component_id.as_bytes());
    key.push(0x2f);
    key.extend_from_slice(channel.as_bytes());
    assert(key@ =~= channel_key(run_seed, component_id.spec_bytes(), channel.spec_bytes()));

    let mut h: u64 = FNV_OFFSET_BASIS;
    let mut j: usize = 0;
    while j < key.len()
        invariant
            0 <= j <= key.len(),
            h == fnv1a(FNV_OFFSET_BASIS, key@.subrange(0, j as int)),
        decreases key.len() - j,
    {
        assert(key@.subrange(0, j + 1).drop_last() =~= key@.subrange(0, j as int));
        h = (h ^ (key[j] as u64)).wrapping_mul(FNV_PRIME);
        j = j + 1;
    }
    assert(key@.subrange(0, key.len() as int) =~= key@);
    let mut rng = SplitMix64::new(h);
    rng.next_u64()
}

} // verus!
