//! JMA high-resolution precipitation nowcast: palette decoding and the 3 x 3
//! tile composite around the site.
use vstd::prelude::*;
use vstd::string::StringSliceAdditionalSpecFns;
use vstd::utf8::*;

use crate::grid::{cell, lemma_cell_bounds};
use crate::json::{first_member_str, is_json_document, json_first_member_str};
use crate::raster::{decode_rgba8, png_rgba8};
use crate::text::{byte_range, dec_chars, push_dec, push_str};
use vstd::arithmetic::div_mod::lemma_fundamental_div_mod_converse;

verus! {

/// Zoom level of the nowcast tiles.
pub const Z: u32 = 12;

/// Tiles per side of the composite.
pub const N: u32 = 3;

/// Cells per side of the composite.
pub const TEX_SIZE: u32 = 768;

/// Rain intensity level (0 = dry, 1..=8) of a nowcast palette pixel.
pub open spec fn level_spec(r: u8, g: u8, b: u8, a: u8) -> u8 {
    if a < 40 {
        0
    } else if r == 242 && g == 242 && b == 255 {
        1
    } else if r == 160 && g == 210 && b == 255 {
        2
    } else if r == 33 && g == 140 && b == 255 {
        3
    } else if r == 0 && g == 65 && b == 255 {
        4
    } else if r == 250 && g == 245 && b == 0 {
        5
    } else if r == 255 && g == 153 && b == 0 {
        6
    } else if r == 255 && g == 40 && b == 0 {
        7
    } else if r == 180 && g == 0 && b == 104 {
        8
    } else {
        1
    }
}

/// Maps a palette colour to its level; an unknown but visible colour counts as
/// light rain.
pub fn level_of(rgba: [u8; 4]) -> (l: u8)
    ensures
        l == level_spec(rgba[0], rgba[1], rgba[2], rgba[3]),
        l <= 8,
        l == 0 <==> rgba[3] < 40,
{
    if rgba[3] < 40 {
        return 0;
    }
    let (r, g, b) = (rgba[0], rgba[1], rgba[2]);
    if r == 242 && g == 242 && b == 255 {
        1
    } else if r == 160 && g == 210 && b == 255 {
        2
    } else if r == 33 && g == 140 && b == 255 {
        3
    } else if r == 0 && g == 65 && b == 255 {
        4
    } else if r == 250 && g == 245 && b == 0 {
        5
    } else if r == 255 && g == 153 && b == 0 {
        6
    } else if r == 255 && g == 40 && b == 0 {
        7
    } else if r == 180 && g == 0 && b == 104 {
        8
    } else {
        1
    }
}

/// Why a nowcast refresh was refused.
#[derive(Debug, PartialEq, Eq, Structural)]
pub enum RainError {
    /// `targetTimes_N1.json` is not JSON.
    BadJson,
    /// It has no string `basetime` in its first entry.
    NoBasetime,
}

/// The latest base time announced by `targetTimes_N1.json`.
pub open spec fn basetime_spec(bytes: Seq<u8>) -> Result<Seq<char>, RainError> {
    if !is_json_document(bytes) {
        Err(RainError::BadJson)
    } else {
        match json_first_member_str(bytes, "basetime"@) {
            None => Err(RainError::NoBasetime),
            Some(b) => Ok(b),
        }
    }
}

pub fn parse_basetime(bytes: &[u8]) -> (r: Result<String, RainError>)
    ensures
        match basetime_spec(bytes@) {
            Ok(b) => r matches Ok(s) && s@ == b,
            Err(e) => r == Err::<String, RainError>(e),
        },
{
    match first_member_str(bytes, "basetime") {
        Err(()) => Err(RainError::BadJson),
        Ok(None) => Err(RainError::NoBasetime),
        Ok(Some(b)) => Ok(b),
    }
}

/// Top-left tile of the 3 x 3 block centred on tile `(cx, cy)`.
pub fn tile_origin(cx: u32, cy: u32) -> (r: (u32, u32))
    requires
        cx >= N / 2,
        cy >= N / 2,
    ensures
        r.0 == cx - 1 && r.1 == cy - 1,
{
    (cx - N / 2, cy - N / 2)
}

/// URL of nowcast tile `(x, y)` at zoom 12 for base time `bt`.
pub open spec fn tile_url_spec(bt: Seq<char>, x: nat, y: nat) -> Seq<char> {
    "https://www.jma.go.jp/bosai/jmatile/data/nowc/"@ + bt + "/none/"@ + bt + "/surf/hrpns/12/"@
        + dec_chars(x) + "/"@ + dec_chars(y) + ".png"@
}

pub fn tile_url(bt: &str, x: u32, y: u32) -> (r: String)
    ensures
        r@ == tile_url_spec(bt@, x as nat, y as nat),
{
    let mut s = String::new();
    push_str(&mut s, "https://www.jma.go.jp/bosai/jmatile/data/nowc/");
    push_str(&mut s, bt);
    push_str(&mut s, "/none/");
    push_str(&mut s, bt);
    push_str(&mut s, "/surf/hrpns/12/");
    push_dec(&mut s, x as u64);
    push_str(&mut s, "/");
    push_dec(&mut s, y as u64);
    push_str(&mut s, ".png");
    s
}

/// The base time can be cut at bytes 8, 10 and 12 (`YYYYMMDDhhmm...`).
pub open spec fn basetime_cuttable(b: Seq<u8>) -> bool {
    &&& b.len() >= 12
    &&& is_char_boundary(b, 8)
    &&& is_char_boundary(b, 10)
    &&& is_char_boundary(b, 12)
}

/// HUD label: `JMA nowcast hh:mm · max lvN`.
pub open spec fn rain_label_spec(b: Seq<u8>, max_level: nat) -> Seq<char> {
    "JMA nowcast "@ + decode_utf8(b.subrange(8, 10)) + ":"@ + decode_utf8(b.subrange(10, 12))
        + " · max lv"@ + dec_chars(max_level)
}

pub fn rain_label(bt: &str, max_level: u8) -> (r: String)
    requires
        basetime_cuttable(bt.spec_bytes()),
    ensures
        r@ == rain_label_spec(bt.spec_bytes(), max_level as nat),
{
    proof {
        encode_utf8_valid_utf8(bt@);
    }
    let hh = byte_range(bt, 8, 10);
    let mm = byte_range(bt, 10, 12);
    let mut s = String::new();
    push_str(&mut s, "JMA nowcast ");
    push_str(&mut s, hh);
    push_str(&mut s, ":");
    push_str(&mut s, mm);
    push_str(&mut s, " · max lv");
    push_dec(&mut s, max_level as u64);
    s
}

/// Level of pixel `(px, py)` of a decoded RGBA tile `w` pixels wide.
pub open spec fn pixel_level(px: Seq<u8>, w: int, x: int, y: int) -> u8 {
    level_spec(
        px[cell(w, 4, x, y, 0)],
        px[cell(w, 4, x, y, 1)],
        px[cell(w, 4, x, y, 2)],
        px[cell(w, 4, x, y, 3)],
    )
}

/// Composite cell that pixel `(x, y)` of tile `(tx, ty)` lands on.
pub open spec fn target(tx: int, ty: int, x: int, y: int) -> int {
    (ty * 256 + y) * 768 + tx * 256 + x
}

/// The composite after the first `cols` pixels of row `y` of a tile.
pub open spec fn paint_row(
    levels: Seq<u8>,
    px: Seq<u8>,
    w: int,
    tx: int,
    ty: int,
    y: int,
    cols: int,
) -> Seq<u8>
    decreases cols,
{
    if cols <= 0 {
        levels
    } else {
        let prev = paint_row(levels, px, w, tx, ty, y, cols - 1);
        let l = pixel_level(px, w, cols - 1, y);
        if l > 0 {
            prev.update(target(tx, ty, cols - 1, y), l)
        } else {
            prev
        }
    }
}

/// The composite after the first `rows` rows of a tile, painted in order;
/// dry pixels leave the composite as it was.
pub open spec fn paint_rows(levels: Seq<u8>, px: Seq<u8>, w: int, tx: int, ty: int, rows: int) -> Seq<
    u8,
>
    decreases rows,
{
    if rows <= 0 {
        levels
    } else {
        paint_row(paint_rows(levels, px, w, tx, ty, rows - 1), px, w, tx, ty, rows - 1, w)
    }
}

/// The wettest level among the first `cols` pixels of row `y`.
pub open spec fn row_max(px: Seq<u8>, w: int, y: int, cols: int) -> u8
    decreases cols,
{
    if cols <= 0 {
        0
    } else {
        let m = row_max(px, w, y, cols - 1);
        let l = pixel_level(px, w, cols - 1, y);
        if l > m {
            l
        } else {
            m
        }
    }
}

/// The wettest level among the first `rows` rows.
pub open spec fn tile_max(px: Seq<u8>, w: int, rows: int) -> u8
    decreases rows,
{
    if rows <= 0 {
        0
    } else {
        let m = tile_max(px, w, rows - 1);
        let r = row_max(px, w, rows - 1, w);
        if r > m {
            r
        } else {
            m
        }
    }
}

/// Every wet pixel of a `w x h` tile lands inside the composite.
pub open spec fn tile_fits(px: Seq<u8>, w: int, h: int, tx: int, ty: int) -> bool {
    forall|x: int, y: int|
        0 <= x < w && 0 <= y < h && pixel_level(px, w, x, y) > 0 ==> 0 <= #[trigger] target(
            tx,
            ty,
            x,
            y,
        ) < 768 * 768
}

/// What a nowcast tile does to the composite and to the wettest level seen.
pub open spec fn composite_spec(
    levels: Seq<u8>,
    max_level: u8,
    png: Seq<u8>,
    tx: int,
    ty: int,
) -> (Seq<u8>, u8) {
    match png_rgba8(png) {
        None => (levels, max_level),
        Some((w, h, px)) => {
            let m = tile_max(px, w as int, h as int);
            (paint_rows(levels, px, w as int, tx, ty, h as int), if m > max_level {
                m
            } else {
                max_level
            })
        },
    }
}

/// Whether a tile can be painted: it does not decode, or every wet pixel
/// lands inside the composite.
pub open spec fn tile_paintable(png: Seq<u8>, tx: int, ty: int) -> bool {
    match png_rgba8(png) {
        None => true,
        Some((w, h, px)) => tile_fits(px, w as int, h as int, tx, ty),
    }
}

fn pixel_level_at(px: &Vec<u8>, w: u32, h: u32, x: u32, y: u32) -> (l: u8)
    requires
        px@.len() >= w * h * 4,
        x < w,
        y < h,
    ensures
        l == pixel_level(px@, w as int, x as int, y as int),
        l <= 8,
{
    let n = px.len();
    proof {
        lemma_cell_bounds(w as int, h as int, 4, x as int, y as int, 0);
        let (xi, yi, wi) = (x as int, y as int, w as int);
        assert(0 <= yi * wi <= yi * wi + xi <= cell(wi, 4, xi, yi, 0)) by (nonlinear_arith)
            requires
                0 <= xi,
                0 <= yi,
                0 <= wi,
        ;
    }
    let o = ((y as usize) * (w as usize) + x as usize) * 4;
    assert(o == cell(w as int, 4, x as int, y as int, 0)) by (nonlinear_arith)
        requires
            o == ((y as int) * (w as int) + x as int) * 4,
    ;
    level_of([px[o], px[o + 1], px[o + 2], px[o + 3]])
}

/// Decodes one nowcast tile and paints its wet pixels into the composite;
/// a tile that does not decode counts as dry.
pub fn composite_tile(levels: &mut Vec<u8>, max_level: &mut u8, png: &[u8], tx: u32, ty: u32)
    requires
        old(levels)@.len() == 768 * 768,
        tx < N,
        ty < N,
        tile_paintable(png@, tx as int, ty as int),
    ensures
        (final(levels)@, *final(max_level)) == composite_spec(
            old(levels)@,
            *old(max_level),
            png@,
            tx as int,
            ty as int,
        ),
{
    let (w, h, px) = match decode_rgba8(png) {
        None => return ,
        Some(t) => t,
    };
    let ghost start = levels@;
    let mut m: u8 = 0;
    let mut y: u32 = 0;
    while y < h
        invariant
            y <= h,
            px@.len() >= w * h * 4,
            levels@.len() == 768 * 768,
            tx < N && ty < N,
            tile_fits(px@, w as int, h as int, tx as int, ty as int),
            levels@ == paint_rows(start, px@, w as int, tx as int, ty as int, y as int),
            m == tile_max(px@, w as int, y as int),
        decreases h - y,
    {
        let ghost row_start = levels@;
        let mut rm: u8 = 0;
        let mut x: u32 = 0;
        while x < w
            invariant
                x <= w,
                y < h,
                px@.len() >= w * h * 4,
                levels@.len() == 768 * 768,
                tx < N && ty < N,
                tile_fits(px@, w as int, h as int, tx as int, ty as int),
                levels@ == paint_row(row_start, px@, w as int, tx as int, ty as int, y as int, x as int),
                rm == row_max(px@, w as int, y as int, x as int),
            decreases w - x,
        {
            let l = pixel_level_at(&px, w, h, x, y);
            if l > 0 {
                assert(0 <= target(tx as int, ty as int, x as int, y as int) < 768 * 768);
                let i = ((ty as usize * 256 + y as usize) * 768 + tx as usize * 256 + x as usize);
                levels.set(i, l);
            }
            if l > rm {
                rm = l;
            }
            x = x + 1;
        }
        if rm > m {
            m = rm;
        }
        y = y + 1;
    }
    if m > *max_level {
        *max_level = m;
    }
}

/// Whether a decoded tile can be painted: every wet pixel lands inside the
/// composite. Callers refuse a tile that fails this.
pub fn tile_fits_check(png: &[u8], tx: u32, ty: u32) -> (r: bool)
    requires
        tx < N,
        ty < N,
    ensures
        r == tile_paintable(png@, tx as int, ty as int),
{
    let (w, h, px) = match decode_rgba8(png) {
        None => return true,
        Some(t) => t,
    };
    let mut y: u32 = 0;
    while y < h
        invariant
            y <= h,
            px@.len() >= w * h * 4,
            png_rgba8(png@) == Some((w, h, px@)),
            tx < N && ty < N,
            forall|xx: int, yy: int|
                0 <= xx < w && 0 <= yy < y && pixel_level(px@, w as int, xx, yy) > 0 ==> 0
                    <= #[trigger] target(tx as int, ty as int, xx, yy) < 768 * 768,
        decreases h - y,
    {
        let mut x: u32 = 0;
        while x < w
            invariant
                x <= w,
                y < h,
                px@.len() >= w * h * 4,
                png_rgba8(png@) == Some((w, h, px@)),
                tx < N && ty < N,
                forall|xx: int, yy: int|
                    0 <= xx < w && 0 <= yy < y && pixel_level(px@, w as int, xx, yy) > 0 ==> 0
                        <= #[trigger] target(tx as int, ty as int, xx, yy) < 768 * 768,
                forall|xx: int|
                    0 <= xx < x && pixel_level(px@, w as int, xx, y as int) > 0 ==> 0
                        <= #[trigger] target(tx as int, ty as int, xx, y as int) < 768 * 768,
            decreases w - x,
        {
            let l = pixel_level_at(&px, w, h, x, y);
            if l > 0 {
                let t: u64 = (ty as u64 * 256 + y as u64) * 768 + tx as u64 * 256 + x as u64;
                if t >= 768 * 768 {
                    assert(t == target(tx as int, ty as int, x as int, y as int));
                    assert(!tile_fits(px@, w as int, h as int, tx as int, ty as int));
                    return false;
                }
            }
            x = x + 1;
        }
        y = y + 1;
    }
    true
}

/// Paints a nowcast tile when every wet pixel lands inside the composite and
/// says whether it did; a tile that would paint outside is refused and leaves
/// the composite and the wettest level unchanged.
pub fn composite_tile_checked(
    levels: &mut Vec<u8>,
    max_level: &mut u8,
    png: &[u8],
    tx: u32,
    ty: u32,
) -> (r: bool)
    requires
        old(levels)@.len() == 768 * 768,
        tx < N,
        ty < N,
    ensures
        r == tile_paintable(png@, tx as int, ty as int),
        r ==> (final(levels)@, *final(max_level)) == composite_spec(
            old(levels)@,
            *old(max_level),
            png@,
            tx as int,
            ty as int,
        ),
        !r ==> final(levels)@ == old(levels)@ && *final(max_level) == *old(max_level),
{
    if !tile_fits_check(png, tx, ty) {
        return false;
    }
    composite_tile(levels, max_level, png, tx, ty);
    true
}

pub open spec fn levels_valid(levels: Seq<u8>) -> bool {
    forall|i: int| 0 <= i < levels.len() ==> #[trigger] levels[i] <= 8
}

proof fn lemma_paint_row_valid(
    levels: Seq<u8>,
    px: Seq<u8>,
    w: int,
    h: int,
    tx: int,
    ty: int,
    y: int,
    cols: int,
)
    requires
        levels_valid(levels),
        levels.len() == 768 * 768,
        tile_fits(px, w, h, tx, ty),
        0 <= y < h,
        cols <= w,
    ensures
        levels_valid(paint_row(levels, px, w, tx, ty, y, cols)),
        paint_row(levels, px, w, tx, ty, y, cols).len() == 768 * 768,
        row_max(px, w, y, cols) <= 8,
    decreases cols,
{
    if cols > 0 {
        lemma_paint_row_valid(levels, px, w, h, tx, ty, y, cols - 1);
        let prev = paint_row(levels, px, w, tx, ty, y, cols - 1);
        let l = pixel_level(px, w, cols - 1, y);
        if l > 0 {
            assert(0 <= target(tx, ty, cols - 1, y) < 768 * 768);
            let next = prev.update(target(tx, ty, cols - 1, y), l);
            assert forall|i: int| 0 <= i < next.len() implies #[trigger] next[i] <= 8 by {
                if i != target(tx, ty, cols - 1, y) {
                    assert(next[i] == prev[i]);
                }
            }
        }
    }
}

proof fn lemma_paint_rows_valid(levels: Seq<u8>, px: Seq<u8>, w: int, h: int, tx: int, ty: int, rows: int)
    requires
        levels_valid(levels),
        levels.len() == 768 * 768,
        tile_fits(px, w, h, tx, ty),
        rows <= h,
    ensures
        levels_valid(paint_rows(levels, px, w, tx, ty, rows)),
        paint_rows(levels, px, w, tx, ty, rows).len() == 768 * 768,
        tile_max(px, w, rows) <= 8,
    decreases rows,
{
    if rows > 0 {
        lemma_paint_rows_valid(levels, px, w, h, tx, ty, rows - 1);
        lemma_paint_row_valid(paint_rows(levels, px, w, tx, ty, rows - 1), px, w, h, tx, ty, rows - 1, w);
    }
}

/// Law: compositing a tile that fits keeps every cell a valid intensity
/// level (0..=8); the wettest level seen never decreases and stays valid.
pub proof fn composite_keeps_levels(levels: Seq<u8>, max_level: u8, png: Seq<u8>, tx: int, ty: int)
    requires
        levels_valid(levels),
        levels.len() == 768 * 768,
        max_level <= 8,
        tile_paintable(png, tx, ty),
    ensures
        levels_valid(composite_spec(levels, max_level, png, tx, ty).0),
        composite_spec(levels, max_level, png, tx, ty).0.len() == 768 * 768,
        max_level <= composite_spec(levels, max_level, png, tx, ty).1 <= 8,
{
    match png_rgba8(png) {
        None => {},
        Some((w, h, px)) => {
            lemma_paint_rows_valid(levels, px, w as int, h as int, tx, ty, h as int);
        },
    }
}

/// Slot `(column, row)` of the 3 x 3 tile grid that composite cell `i` lies in.
pub open spec fn slot_of(i: int) -> (int, int) {
    ((i % 768) / 256, (i / 768) / 256)
}

/// `m` is the largest level of the composite: no cell exceeds it, and it is 0
/// or held by some cell.
pub open spec fn is_max_level(levels: Seq<u8>, m: u8) -> bool {
    &&& forall|i: int| 0 <= i < levels.len() ==> #[trigger] levels[i] <= m
    &&& m == 0 || exists|i: int| 0 <= i < levels.len() && #[trigger] levels[i] == m
}

/// Every cell of slot `(tx, ty)` is dry.
pub open spec fn slot_dry(levels: Seq<u8>, tx: int, ty: int) -> bool {
    forall|i: int| 0 <= i < levels.len() && slot_of(i) == (tx, ty) ==> #[trigger] levels[i] == 0
}

/// A tile that decodes to at most 256 x 256 pixels (or not at all) paints
/// only its own slot.
pub open spec fn tile_in_slot(png: Seq<u8>) -> bool {
    match png_rgba8(png) {
        None => true,
        Some((w, h, _)) => w <= 256 && h <= 256,
    }
}

/// An all-dry composite.
pub open spec fn dry_composite() -> Seq<u8> {
    Seq::new(768 * 768, |i: int| 0u8)
}

/// The composite and wettest level after compositing `tiles` (PNG, column,
/// row) in order.
pub open spec fn composite_seq(levels: Seq<u8>, m: u8, tiles: Seq<(Seq<u8>, int, int)>) -> (
    Seq<u8>,
    u8,
)
    decreases tiles.len(),
{
    if tiles.len() == 0 {
        (levels, m)
    } else {
        let (l, mm) = composite_seq(levels, m, tiles.drop_last());
        let t = tiles.last();
        composite_spec(l, mm, t.0, t.1, t.2)
    }
}

proof fn lemma_target_slot(tx: int, ty: int, x: int, y: int)
    requires
        0 <= tx < 3,
        0 <= ty < 3,
        0 <= x < 256,
        0 <= y < 256,
    ensures
        0 <= target(tx, ty, x, y) < 768 * 768,
        slot_of(target(tx, ty, x, y)) == (tx, ty),
{
    let t = target(tx, ty, x, y);
    lemma_fundamental_div_mod_converse(t, 768, ty * 256 + y, tx * 256 + x);
    lemma_fundamental_div_mod_converse(tx * 256 + x, 256, tx, x);
    lemma_fundamental_div_mod_converse(ty * 256 + y, 256, ty, y);
}

proof fn lemma_target_injective(tx: int, ty: int, x1: int, y1: int, x2: int, y2: int)
    requires
        0 <= x1 < 256,
        0 <= y1 < 256,
        0 <= x2 < 256,
        0 <= y2 < 256,
        target(tx, ty, x1, y1) == target(tx, ty, x2, y2),
    ensures
        x1 == x2 && y1 == y2,
{
}

proof fn lemma_row_max(px: Seq<u8>, w: int, y: int, cols: int)
    ensures
        forall|x: int| 0 <= x < cols ==> #[trigger] pixel_level(px, w, x, y) <= row_max(px, w, y, cols),
        row_max(px, w, y, cols) == 0 || exists|x: int|
            0 <= x < cols && #[trigger] pixel_level(px, w, x, y) == row_max(px, w, y, cols),
    decreases cols,
{
    if cols > 0 {
        lemma_row_max(px, w, y, cols - 1);
    }
}

proof fn lemma_tile_max(px: Seq<u8>, w: int, rows: int)
    ensures
        forall|x: int, y: int|
            0 <= x < w && 0 <= y < rows ==> #[trigger] pixel_level(px, w, x, y) <= tile_max(px, w, rows),
        tile_max(px, w, rows) == 0 || exists|x: int, y: int|
            0 <= x < w && 0 <= y < rows && #[trigger] pixel_level(px, w, x, y) == tile_max(px, w, rows),
    decreases rows,
{
    if rows > 0 {
        lemma_tile_max(px, w, rows - 1);
        lemma_row_max(px, w, rows - 1, w);
        let m = tile_max(px, w, rows);
        assert forall|x: int, y: int|
            0 <= x < w && 0 <= y < rows implies #[trigger] pixel_level(px, w, x, y) <= m by {
            if y < rows - 1 {
                assert(pixel_level(px, w, x, y) <= tile_max(px, w, rows - 1));
            } else {
                assert(pixel_level(px, w, x, rows - 1) <= row_max(px, w, rows - 1, w));
            }
        }
        if m > 0 {
            if m == row_max(px, w, rows - 1, w) {
                let x = choose|x: int| 0 <= x < w && #[trigger] pixel_level(px, w, x, rows - 1) == row_max(px, w, rows - 1, w);
                assert(pixel_level(px, w, x, rows - 1) == m);
            } else {
                let (x, y) = choose|x: int, y: int|
                    0 <= x < w && 0 <= y < rows - 1 && #[trigger] pixel_level(px, w, x, y) == tile_max(px, w, rows - 1);
                assert(pixel_level(px, w, x, y) == m);
            }
        }
    }
}

proof fn lemma_paint_row_slot(
    levels: Seq<u8>,
    px: Seq<u8>,
    w: int,
    tx: int,
    ty: int,
    y: int,
    cols: int,
    bound: u8,
)
    requires
        0 <= tx < 3,
        0 <= ty < 3,
        0 <= w <= 256,
        0 <= y < 256,
        0 <= cols <= w,
        levels.len() == 768 * 768,
        forall|x: int| 0 <= x < w ==> #[trigger] pixel_level(px, w, x, y) <= bound,
    ensures
        ({
            let r = paint_row(levels, px, w, tx, ty, y, cols);
            &&& r.len() == levels.len()
            &&& forall|i: int|
                0 <= i < levels.len() && slot_of(i) != (tx, ty) ==> #[trigger] r[i] == levels[i]
            &&& forall|i: int| 0 <= i < levels.len() ==> #[trigger] r[i] == levels[i] || r[i] <= bound
            &&& forall|x: int|
                0 <= x < cols && #[trigger] pixel_level(px, w, x, y) > 0 ==> r[target(tx, ty, x, y)]
                    == pixel_level(px, w, x, y)
            &&& forall|x2: int, y2: int|
                0 <= x2 < 256 && 0 <= y2 < 256 && y2 != y ==> r[#[trigger] target(tx, ty, x2, y2)]
                    == levels[target(tx, ty, x2, y2)]
        }),
    decreases cols,
{
    if cols > 0 {
        lemma_paint_row_slot(levels, px, w, tx, ty, y, cols - 1, bound);
        let prev = paint_row(levels, px, w, tx, ty, y, cols - 1);
        let l = pixel_level(px, w, cols - 1, y);
        let r = paint_row(levels, px, w, tx, ty, y, cols);
        if l > 0 {
            let t = target(tx, ty, cols - 1, y);
            lemma_target_slot(tx, ty, cols - 1, y);
            assert(r == prev.update(t, l));
            assert forall|i: int|
                0 <= i < levels.len() && slot_of(i) != (tx, ty) implies #[trigger] r[i] == levels[i] by {
                assert(i != t);
            }
            assert forall|i: int| 0 <= i < levels.len() implies #[trigger] r[i] == levels[i] || r[i]
                <= bound by {
                if i != t {
                    assert(r[i] == prev[i]);
                }
            }
            assert forall|x: int|
                0 <= x < cols && #[trigger] pixel_level(px, w, x, y) > 0 implies r[target(tx, ty, x, y)]
                == pixel_level(px, w, x, y) by {
                if x < cols - 1 {
                    if target(tx, ty, x, y) == t {
                        lemma_target_injective(tx, ty, x, y, cols - 1, y);
                    }
                    lemma_target_slot(tx, ty, x, y);
                    assert(r[target(tx, ty, x, y)] == prev[target(tx, ty, x, y)]);
                }
            }
            assert forall|x2: int, y2: int|
                0 <= x2 < 256 && 0 <= y2 < 256 && y2 != y implies r[#[trigger] target(tx, ty, x2, y2)]
                == levels[target(tx, ty, x2, y2)] by {
                if target(tx, ty, x2, y2) == t {
                    lemma_target_injective(tx, ty, x2, y2, cols - 1, y);
                }
                lemma_target_slot(tx, ty, x2, y2);
                assert(r[target(tx, ty, x2, y2)] == prev[target(tx, ty, x2, y2)]);
            }
        } else {
            assert(r == prev);
            assert forall|x: int|
                0 <= x < cols && #[trigger] pixel_level(px, w, x, y) > 0 implies r[target(tx, ty, x, y)]
                == pixel_level(px, w, x, y) by {
                assert(x != cols - 1);
            }
        }
    }
}

proof fn lemma_paint_rows_slot(
    levels: Seq<u8>,
    px: Seq<u8>,
    w: int,
    h: int,
    tx: int,
    ty: int,
    rows: int,
    bound: u8,
)
    requires
        0 <= tx < 3,
        0 <= ty < 3,
        0 <= w <= 256,
        0 <= h <= 256,
        0 <= rows <= h,
        levels.len() == 768 * 768,
        forall|x: int, y: int| 0 <= x < w && 0 <= y < h ==> #[trigger] pixel_level(px, w, x, y) <= bound,
    ensures
        ({
            let r = paint_rows(levels, px, w, tx, ty, rows);
            &&& r.len() == levels.len()
            &&& forall|i: int|
                0 <= i < levels.len() && slot_of(i) != (tx, ty) ==> #[trigger] r[i] == levels[i]
            &&& forall|i: int| 0 <= i < levels.len() ==> #[trigger] r[i] == levels[i] || r[i] <= bound
            &&& forall|x: int, y: int|
                0 <= x < w && 0 <= y < rows && #[trigger] pixel_level(px, w, x, y) > 0 ==> r[target(
                    tx,
                    ty,
                    x,
                    y,
                )] == pixel_level(px, w, x, y)
        }),
    decreases rows,
{
    if rows > 0 {
        lemma_paint_rows_slot(levels, px, w, h, tx, ty, rows - 1, bound);
        let prev = paint_rows(levels, px, w, tx, ty, rows - 1);
        assert forall|x: int| 0 <= x < w implies #[trigger] pixel_level(px, w, x, rows - 1) <= bound by {
            assert(pixel_level(px, w, x, rows - 1) <= bound);
        }
        lemma_paint_row_slot(prev, px, w, tx, ty, rows - 1, w, bound);
        let r = paint_rows(levels, px, w, tx, ty, rows);
        assert(r == paint_row(prev, px, w, tx, ty, rows - 1, w));
        assert forall|i: int| 0 <= i < levels.len() implies #[trigger] r[i] == levels[i] || r[i]
            <= bound by {
            assert(r[i] == prev[i] || r[i] <= bound);
            assert(prev[i] == levels[i] || prev[i] <= bound);
        }
        assert forall|i: int|
            0 <= i < levels.len() && slot_of(i) != (tx, ty) implies #[trigger] r[i] == levels[i] by {
            assert(r[i] == prev[i]);
        }
        assert forall|x: int, y: int|
            0 <= x < w && 0 <= y < rows && #[trigger] pixel_level(px, w, x, y) > 0 implies r[target(
                tx,
                ty,
                x,
                y,
            )] == pixel_level(px, w, x, y) by {
            if y < rows - 1 {
                assert(r[target(tx, ty, x, y)] == prev[target(tx, ty, x, y)]);
            }
        }
    }
}

proof fn lemma_composite_step(levels: Seq<u8>, m: u8, png: Seq<u8>, tx: int, ty: int)
    requires
        0 <= tx < 3,
        0 <= ty < 3,
        levels.len() == 768 * 768,
        tile_in_slot(png),
        is_max_level(levels, m),
        slot_dry(levels, tx, ty),
    ensures
        ({
            let (l2, m2) = composite_spec(levels, m, png, tx, ty);
            &&& l2.len() == levels.len()
            &&& is_max_level(l2, m2)
            &&& forall|i: int|
                0 <= i < levels.len() && slot_of(i) != (tx, ty) ==> #[trigger] l2[i] == levels[i]
        }),
{
    match png_rgba8(png) {
        None => {},
        Some((w, h, px)) => {
            let (wi, hi) = (w as int, h as int);
            let tm = tile_max(px, wi, hi);
            lemma_tile_max(px, wi, hi);
            lemma_paint_rows_slot(levels, px, wi, hi, tx, ty, hi, tm);
            let l2 = paint_rows(levels, px, wi, tx, ty, hi);
            let m2 = if tm > m {
                tm
            } else {
                m
            };
            assert(composite_spec(levels, m, png, tx, ty) == (l2, m2));
            assert forall|i: int| 0 <= i < l2.len() implies #[trigger] l2[i] <= m2 by {
                assert(l2[i] == levels[i] || l2[i] <= tm);
                assert(levels[i] <= m);
            }
            if m2 > 0 {
                if tm > m {
                    let (x, y) = choose|x: int, y: int|
                        0 <= x < wi && 0 <= y < hi && #[trigger] pixel_level(px, wi, x, y) == tile_max(
                            px,
                            wi,
                            hi,
                        );
                    lemma_target_slot(tx, ty, x, y);
                    let t = target(tx, ty, x, y);
                    assert(l2[t] == m2);
                } else {
                    let i = choose|i: int| 0 <= i < levels.len() && #[trigger] levels[i] == m;
                    if slot_of(i) == (tx, ty) {
                        assert(levels[i] == 0);
                    }
                    assert(l2[i] == m2);
                }
            }
        },
    }
}

/// Law: compositing tiles that decode to at most 256 x 256 pixels into
/// distinct slots of the 3 x 3 grid, starting from a dry composite, leaves the
/// wettest level equal to the largest level in the composite.
pub proof fn composite_max_is_max(tiles: Seq<(Seq<u8>, int, int)>)
    requires
        forall|k: int|
            0 <= k < tiles.len() ==> 0 <= (#[trigger] tiles[k]).1 < 3 && 0 <= tiles[k].2 < 3
                && tile_in_slot(tiles[k].0),
        forall|j: int, k: int|
            0 <= j < k < tiles.len() ==> (#[trigger] tiles[j].1, tiles[j].2) != (
                #[trigger] tiles[k].1,
                tiles[k].2,
            ),
    ensures
        ({
            let (l, m) = composite_seq(dry_composite(), 0, tiles);
            &&& l.len() == 768 * 768
            &&& is_max_level(l, m)
            &&& forall|sx: int, sy: int|
                0 <= sx < 3 && 0 <= sy < 3 && (forall|k: int|
                    0 <= k < tiles.len() ==> (#[trigger] tiles[k].1, tiles[k].2) != (sx, sy))
                    ==> #[trigger] slot_dry(l, sx, sy)
        }),
    decreases tiles.len(),
{
    if tiles.len() == 0 {
        let l = dry_composite();
        assert(composite_seq(dry_composite(), 0, tiles) == (l, 0u8));
        assert forall|i: int| 0 <= i < l.len() implies #[trigger] l[i] <= 0u8 by {}
    } else {
        let pre = tiles.drop_last();
        assert forall|k: int|
            0 <= k < pre.len() implies 0 <= (#[trigger] pre[k]).1 < 3 && 0 <= pre[k].2 < 3
            && tile_in_slot(pre[k].0) by {
            assert(pre[k] == tiles[k]);
        }
        assert forall|j: int, k: int|
            0 <= j < k < pre.len() implies (#[trigger] pre[j].1, pre[j].2) != (
            #[trigger] pre[k].1,
            pre[k].2,
        ) by {
            assert(pre[j] == tiles[j] && pre[k] == tiles[k]);
        }
        composite_max_is_max(pre);
        let (l, m) = composite_seq(dry_composite(), 0, pre);
        let t = tiles.last();
        let n = tiles.len() - 1;
        assert(t == tiles[n]);
        assert(0 <= t.1 < 3 && 0 <= t.2 < 3 && tile_in_slot(t.0));
        assert forall|k: int| 0 <= k < pre.len() implies (#[trigger] pre[k].1, pre[k].2) != (t.1, t.2) by {
            assert(pre[k] == tiles[k]);
            assert((tiles[k].1, tiles[k].2) != (tiles[n].1, tiles[n].2));
        }
        assert(slot_dry(l, t.1, t.2));
        lemma_composite_step(l, m, t.0, t.1, t.2);
        let (l2, m2) = composite_seq(dry_composite(), 0, tiles);
        assert((l2, m2) == composite_spec(l, m, t.0, t.1, t.2));
        assert forall|sx: int, sy: int|
            0 <= sx < 3 && 0 <= sy < 3 && (forall|k: int|
                0 <= k < tiles.len() ==> (#[trigger] tiles[k].1, tiles[k].2) != (sx, sy))
                implies #[trigger] slot_dry(l2, sx, sy) by {
            assert forall|k: int| 0 <= k < pre.len() implies (#[trigger] pre[k].1, pre[k].2) != (
                sx,
                sy,
            ) by {
                assert(pre[k] == tiles[k]);
            }
            assert(slot_dry(l, sx, sy));
            assert((tiles[n].1, tiles[n].2) != (sx, sy));
            assert forall|i: int| 0 <= i < l2.len() && slot_of(i) == (sx, sy) implies #[trigger] l2[i]
                == 0 by {
                assert(l2[i] == l[i]);
            }
        }
    }
}

} // verus!
