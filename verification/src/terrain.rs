//! GSI elevation tiles: decoding the 24-bit RGB elevation encoding.
use vstd::prelude::*;

use crate::raster::{decode_rgb8, png_rgb8};

verus! {

/// The "no data" code (sea and water surfaces).
pub const NO_DATA: i64 = 8_388_608;

/// Elevation in centimetres of an RGB pixel of a GSI PNG elevation tile:
/// the 24-bit big-endian value in two's complement, `None` for no data.
pub open spec fn elevation_cm_spec(r: u8, g: u8, b: u8) -> Option<int> {
    let x = r * 65536 + g * 256 + b;
    if x == 8_388_608 {
        None
    } else if x > 8_388_608 {
        Some(x - 16_777_216)
    } else {
        Some(x)
    }
}

pub fn decode_elev_cm(p: [u8; 3]) -> (r: Option<i32>)
    ensures
        match elevation_cm_spec(p[0], p[1], p[2]) {
            None => r is None,
            Some(v) => r == Some(v as i32) && -8_388_607 <= v <= 8_388_607,
        },
{
    let x: i64 = (p[0] as i64) * 65536 + (p[1] as i64) * 256 + p[2] as i64;
    if x == NO_DATA {
        return None;
    }
    let x = if x > 8_388_608 {
        x - 16_777_216
    } else {
        x
    };
    Some(x as i32)
}

/// Law: every in-range elevation has exactly one encoding, so decoding is a
/// bijection between non-"no data" pixels and `[-8388607, 8388607]` cm.
pub proof fn elevation_encoding_injective(r1: u8, g1: u8, b1: u8, r2: u8, g2: u8, b2: u8)
    requires
        elevation_cm_spec(r1, g1, b1) is Some,
        elevation_cm_spec(r1, g1, b1) == elevation_cm_spec(r2, g2, b2),
    ensures
        r1 == r2 && g1 == g2 && b1 == b2,
{
    let x1 = r1 * 65536 + g1 * 256 + b1;
    let x2 = r2 * 65536 + g2 * 256 + b2;
    assert(x1 == x2);
    vstd::arithmetic::div_mod::lemma_fundamental_div_mod_converse(x1, 256, r1 * 256 + g1, b1 as int);
    vstd::arithmetic::div_mod::lemma_fundamental_div_mod_converse(x2, 256, r2 * 256 + g2, b2 as int);
    vstd::arithmetic::div_mod::lemma_fundamental_div_mod_converse(r1 * 256 + g1, 256, r1 as int, g1 as int);
    vstd::arithmetic::div_mod::lemma_fundamental_div_mod_converse(r2 * 256 + g2, 256, r2 as int, g2 as int);
}

/// Elevation of pixel `i` of row-major RGB bytes.
pub open spec fn pixel_elevation(px: Seq<u8>, i: int) -> Option<int> {
    elevation_cm_spec(px[3 * i], px[3 * i + 1], px[3 * i + 2])
}

/// Decodes a GSI PNG elevation tile: width, height and the elevation in
/// centimetres of each pixel, row-major (`None` for no data); `None` when the
/// PNG does not decode.
pub fn decode_tile_cm(png: &[u8]) -> (r: Option<(u32, u32, Vec<Option<i32>>)>)
    ensures
        match png_rgb8(png@) {
            None => r is None,
            Some((w, h, px)) => r matches Some((rw, rh, v)) && rw == w && rh == h && v@.len()
                == w * h && forall|i: int|
                0 <= i < w * h ==> match pixel_elevation(px, i) {
                    None => #[trigger] v@[i] is None,
                    Some(e) => v@[i] == Some(e as i32),
                },
        },
{
    let (w, h, px) = match decode_rgb8(png) {
        None => return None,
        Some(t) => t,
    };
    let plen = px.len();
    proof {
        let (wi, hi, len) = (w as int, h as int, px@.len() as int);
        assert(px@.len() >= w * h * 3);
        assert(0 <= wi * hi && 3 * (wi * hi) <= len) by (nonlinear_arith)
            requires
                0 <= wi,
                0 <= hi,
                len >= wi * hi * 3,
        ;
    }
    let n = w as usize * h as usize;
    let mut out: Vec<Option<i32>> = Vec::new();
    let mut i: usize = 0;
    while i < n
        invariant
            n == w * h,
            plen == px@.len(),
            3 * n <= px@.len(),
            png_rgb8(png@) == Some((w, h, px@)),
            i <= n,
            out@.len() == i,
            forall|k: int|
                0 <= k < i ==> match pixel_elevation(px@, k) {
                    None => #[trigger] out@[k] is None,
                    Some(e) => out@[k] == Some(e as i32),
                },
        decreases n - i,
    {
        let e = decode_elev_cm([px[3 * i], px[3 * i + 1], px[3 * i + 2]]);
        out.push(e);
        i = i + 1;
    }
    Some((w, h, out))
}

} // verus!
