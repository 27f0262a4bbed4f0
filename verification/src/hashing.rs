//! Integer hashes and generators behind terrain noise, seeds, star fields
//! and prop colours.
use vstd::prelude::*;

verus! {

/// Multiplier applied to the x lattice coordinate.
pub const HASH_KX: u64 = 0x9E37_79B1_85EB_CA87;

/// Multiplier applied to the y lattice coordinate.
pub const HASH_KY: u64 = 0xC2B2_AE3D_27D4_EB4F;

/// Multiplier applied to the z lattice coordinate.
pub const HASH_KZ: u64 = 0x1656_67B1_F3C6_AF85;

/// First finaliser multiplier.
pub const MIX_M1: u64 = 0xff51_afd7_ed55_8ccd;

/// Second finaliser multiplier.
pub const MIX_M2: u64 = 0xc4ce_b9fe_1a85_ec53;

/// Constant folded into every new map seed.
pub const SEED_SALT: u64 = 0x9E37_79B9_7F4A_7C15;

/// FNV-1a offset basis (32 bit).
pub const FNV_OFFSET: u32 = 2166136261;

/// FNV-1a prime (32 bit).
pub const FNV_PRIME: u32 = 16777619;

/// The 64-bit finaliser: xor-shift by 33, multiply, twice, then a last xor-shift.
pub open spec fn mix64(v: u64) -> u64 {
    let a = v ^ (v >> 33u64);
    let b = a.wrapping_mul(MIX_M1);
    let c = b ^ (b >> 33u64);
    let d = c.wrapping_mul(MIX_M2);
    d ^ (d >> 33u64)
}

/// Lattice hash of `(x, y)` under `seed`: the low 32 bits of the finalised mix.
pub open spec fn lattice_hash2(seed: u64, x: i32, y: i32) -> u32 {
    (mix64(seed ^ (x as u64).wrapping_mul(HASH_KX) ^ (y as u64).wrapping_mul(HASH_KY)) % 0x1_0000_0000) as u32
}

/// Lattice hash of `(x, y, z)` under `seed`.
pub open spec fn lattice_hash3(seed: u64, x: i32, y: i32, z: i32) -> u32 {
    (mix64(
        seed ^ (x as u64).wrapping_mul(HASH_KX) ^ (y as u64).wrapping_mul(HASH_KY) ^ (z as u64).wrapping_mul(HASH_KZ),
    ) % 0x1_0000_0000) as u32
}

fn mix(v: u64) -> (r: u64)
    ensures
        r == mix64(v),
{
    let mut v = v;
    v = v ^ (v >> 33);
    v = v.wrapping_mul(MIX_M1);
    v = v ^ (v >> 33);
    v = v.wrapping_mul(MIX_M2);
    v ^ (v >> 33)
}

/// Low 32 bits of a 64-bit value.
fn low32(v: u64) -> (r: u32)
    ensures
        r == (v % 0x1_0000_0000) as u32,
{
    let masked = v & 0xFFFF_FFFF;
    assert(masked == v % 0x1_0000_0000) by (bit_vector)
        requires
            masked == v & 0xFFFF_FFFF,
    ;
    masked as u32
}

/// Hash of a 2D lattice point (terrain noise).
pub fn hash_u32(seed: u64, x: i32, y: i32) -> (r: u32)
    ensures
        r == lattice_hash2(seed, x, y),
{
    let v = seed ^ (x as u64).wrapping_mul(HASH_KX) ^ (y as u64).wrapping_mul(HASH_KY);
    low32(mix(v))
}

/// Hash of a 3D lattice point (planet noise).
pub fn hash3_u32(seed: u64, x: i32, y: i32, z: i32) -> (r: u32)
    ensures
        r == lattice_hash3(seed, x, y, z),
{
    let v = seed ^ (x as u64).wrapping_mul(HASH_KX) ^ (y as u64).wrapping_mul(HASH_KY) ^ (z as u64).wrapping_mul(
        HASH_KZ,
    );
    low32(mix(v))
}

/// Next map seed from the old one and the current time in nanoseconds
/// (truncated to 64 bits by the caller).
pub fn next_seed(old: u64, now_nanos: u64) -> (r: u64)
    ensures
        r == old ^ now_nanos ^ SEED_SALT,
{
    old ^ now_nanos ^ SEED_SALT
}

/// Mixing in the same time twice gives back the old seed.
pub proof fn lemma_next_seed_involution(old: u64, t: u64)
    ensures
        (old ^ t ^ SEED_SALT) ^ t ^ SEED_SALT == old,
{
    assert((old ^ t ^ SEED_SALT) ^ t ^ SEED_SALT == old) by (bit_vector);
}

/// FNV-1a hash over `bytes`.
pub open spec fn fnv1a(bytes: Seq<u8>) -> u32
    decreases bytes.len(),
{
    if bytes.len() == 0 {
        FNV_OFFSET
    } else {
        (fnv1a(bytes.drop_last()) ^ (bytes.last() as u32)).wrapping_mul(FNV_PRIME)
    }
}

/// FNV-1a hash of a prop kind's bytes (seeds its gizmo colour).
pub fn hash_kind(bytes: &[u8]) -> (r: u32)
    ensures
        r == fnv1a(bytes@),
{
    let mut hash: u32 = FNV_OFFSET;
    let n = bytes.len();
    for i in 0..n
        invariant
            n == bytes@.len(),
            hash == fnv1a(bytes@.take(i as int)),
    {
        proof {
            let cur = bytes@.take(i + 1);
            assert(cur.drop_last() =~= bytes@.take(i as int));
        }
        hash = hash ^ (bytes[i] as u32);
        hash = hash.wrapping_mul(FNV_PRIME);
    }
    assert(bytes@.take(n as int) =~= bytes@);
    hash
}

/// Linear congruential generator of the star field.
#[derive(Clone, Copy, Debug)]
pub struct Lcg {
    pub state: u64,
}

/// One LCG step.
pub open spec fn lcg_step(state: u64) -> u64 {
    state.wrapping_mul(6364136223846793005).wrapping_add(1)
}

impl Lcg {
    pub fn new(seed: u64) -> (r: Lcg)
        ensures
            r.state == seed,
    {
        Lcg { state: seed }
    }

    /// Advances the state and returns its high 32 bits.
    pub fn next_u32(&mut self) -> (r: u32)
        ensures
            final(self).state == lcg_step(old(self).state),
            r == (final(self).state >> 32u64) as u32,
    {
        self.state = self.state.wrapping_mul(6364136223846793005).wrapping_add(1);
        (self.state >> 32) as u32
    }
}

} // verus!
