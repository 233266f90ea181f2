//! Integer hashes that give buildings, satellites and street lamps their
//! per-object variation (the renderer scales the 24- and 23-bit results to [0, 1]).
use vstd::prelude::*;
use vstd::wrapping::{u32_specs, u64_specs};

verus! {

/// 32-bit avalanche mix of a building id, keeping the low 24 bits.
pub open spec fn mix24_u32(x: u32) -> u32 {
    let h1 = u32_specs::wrapping_mul(x, 0x9E3779B9);
    let h2 = h1 ^ (h1 >> 16u32);
    let h3 = u32_specs::wrapping_mul(h2, 0x85EBCA6B);
    let h4 = h3 ^ (h3 >> 13u32);
    h4 & 0xFFFFFFu32
}

/// 64-bit avalanche mix of a catalog number, keeping the low 24 bits.
pub open spec fn mix24_u64(x: u64) -> u64 {
    let h1 = u64_specs::wrapping_mul(x, 0x9E37_79B9_7F4A_7C15);
    let h2 = h1 ^ (h1 >> 33u64);
    let h3 = u64_specs::wrapping_mul(h2, 0xC2B2_AE3D_27D4_EB4F);
    let h4 = h3 ^ (h3 >> 29u64);
    h4 & 0xFFFFFFu64
}

/// `x` rotated left by nine bits.
pub open spec fn rotl9(x: u32) -> u32 {
    (x << 9u32) | (x >> 23u32)
}

pub fn hash24_u32(x: u32) -> (r: u32)
    ensures
        r == mix24_u32(x),
        r < 0x100_0000,
{
    proof {
        lemma_mix24_bounded(x, 0);
    }
    let mut h = x.wrapping_mul(0x9E3779B9);
    h = h ^ (h >> 16u32);
    h = h.wrapping_mul(0x85EBCA6B);
    h = h ^ (h >> 13u32);
    h & 0xFFFFFF
}

pub fn hash24_u64(x: u64) -> (r: u64)
    ensures
        r == mix24_u64(x),
        r < 0x100_0000,
{
    proof {
        lemma_mix24_bounded(0, x);
    }
    let mut h = x.wrapping_mul(0x9E37_79B9_7F4A_7C15);
    h = h ^ (h >> 33u64);
    h = h.wrapping_mul(0xC2B2_AE3D_27D4_EB4F);
    h = h ^ (h >> 29u64);
    h & 0xFFFFFF
}

/// The hash of a vertex of building `batch_id` in the tile numbered `tile_seed`.
pub fn building_hash24(batch_id: u32, tile_seed: u32) -> (r: u32)
    ensures
        r == mix24_u32(batch_id ^ rotl9(tile_seed)),
        r < 0x100_0000,
{
    let rot = (tile_seed << 9u32) | (tile_seed >> 23u32);
    hash24_u32(batch_id ^ rot)
}

/// One step of the street-lamp generator: the next state and its 23 high bits.
pub fn lamp_hash_step(state: u32) -> (r: (u32, u32))
    ensures
        r.0 == u32_specs::wrapping_add(u32_specs::wrapping_mul(state, 747796405), 2891336453),
        r.1 == r.0 >> 9u32,
        r.1 < 0x80_0000,
{
    let next = state.wrapping_mul(747796405).wrapping_add(2891336453);
    let bits = next >> 9u32;
    assert(next >> 9u32 < 0x80_0000u32) by (bit_vector);
    (next, bits)
}

pub proof fn lemma_mix24_bounded(x: u32, y: u64)
    ensures
        mix24_u32(x) < 0x100_0000,
        mix24_u64(y) < 0x100_0000,
{
    let a = mix24_u32(x);
    let b = mix24_u64(y);
    assert(forall|v: u32| #[trigger] (v & 0xFFFFFFu32) < 0x100_0000u32) by (bit_vector);
    assert(forall|v: u64| #[trigger] (v & 0xFFFFFFu64) < 0x100_0000u64) by (bit_vector);
}

} // verus!
