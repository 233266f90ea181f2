//! Row-major raster indexing and tile blitting.
use vstd::prelude::*;
use vstd::arithmetic::div_mod::lemma_fundamental_div_mod_converse;

verus! {

/// Byte index of channel `c` of pixel `(x, y)` in a `w`-wide raster of
/// `k`-byte pixels.
pub open spec fn cell(w: int, k: int, x: int, y: int, c: int) -> int {
    (y * w + x) * k + c
}

/// A cell index determines its pixel and channel.
pub proof fn lemma_cell_unique(w: int, k: int, x1: int, y1: int, c1: int, x2: int, y2: int, c2: int)
    requires
        w > 0,
        k > 0,
        0 <= x1 < w,
        0 <= x2 < w,
        0 <= c1 < k,
        0 <= c2 < k,
        cell(w, k, x1, y1, c1) == cell(w, k, x2, y2, c2),
    ensures
        x1 == x2 && y1 == y2 && c1 == c2,
{
    let i = cell(w, k, x1, y1, c1);
    lemma_fundamental_div_mod_converse(i, k, y1 * w + x1, c1);
    lemma_fundamental_div_mod_converse(i, k, y2 * w + x2, c2);
    lemma_fundamental_div_mod_converse(y1 * w + x1, w, y1, x1);
    lemma_fundamental_div_mod_converse(y2 * w + x2, w, y2, x2);
}

/// Cells of a `w x h` raster lie inside its `w * h * k` bytes.
pub proof fn lemma_cell_bounds(w: int, h: int, k: int, x: int, y: int, c: int)
    requires
        0 <= x < w,
        0 <= y < h,
        0 <= c < k,
    ensures
        0 <= cell(w, k, x, y, c) < w * h * k,
        cell(w, k, x, y, c) + (k - c) <= w * h * k,
{
    assert(0 <= y * w + x < w * h) by (nonlinear_arith)
        requires
            0 <= x < w,
            0 <= y < h,
    ;
    assert(0 <= (y * w + x) * k + c < w * h * k) by (nonlinear_arith)
        requires
            0 <= y * w + x < w * h,
            0 <= c < k,
    ;
    assert((y * w + x) * k + k <= w * h * k) by (nonlinear_arith)
        requires
            0 <= y * w + x < w * h,
            0 <= c < k,
    ;
}

/// What an opaque RGB tile leaves in a `size`-wide RGBA canvas at `(x, y)`,
/// channel `c`, when pasted with its corner at `(x0, y0)`.
pub open spec fn blit_value(
    old: Seq<u8>,
    size: int,
    src: Seq<u8>,
    tile: int,
    x0: int,
    y0: int,
    x: int,
    y: int,
    c: int,
) -> u8 {
    if x0 <= x < x0 + tile && y0 <= y < y0 + tile {
        if c == 3 {
            255
        } else {
            src[cell(tile, 3, x - x0, y - y0, c)]
        }
    } else {
        old[cell(size, 4, x, y, c)]
    }
}

/// Pastes a `tile x tile` RGB image into a `size x size` RGBA canvas with its
/// corner at `(x0, y0)`, alpha set to 255.
pub fn blit_rgb_opaque(dst: &mut Vec<u8>, size: usize, src: &[u8], tile: usize, x0: usize, y0: usize)
    requires
        old(dst)@.len() == size * size * 4,
        x0 + tile <= size,
        y0 + tile <= size,
        src@.len() >= tile * tile * 3,
    ensures
        final(dst)@.len() == old(dst)@.len(),
        forall|x: int, y: int, c: int|
            0 <= x < size && 0 <= y < size && 0 <= c < 4 ==> #[trigger] final(dst)@[cell(
                size as int,
                4,
                x,
                y,
                c,
            )] == blit_value(old(dst)@, size as int, src@, tile as int, x0 as int, y0 as int, x, y, c),
{
    let ghost start = dst@;
    let ghost s = size as int;
    let ghost t = tile as int;
    let mut row: usize = 0;
    while row < tile
        invariant
            row <= tile,
            dst@.len() == start.len(),
            start.len() == size * size * 4,
            x0 + tile <= size,
            y0 + tile <= size,
            src@.len() >= tile * tile * 3,
            s == size,
            t == tile,
            forall|x: int, y: int, c: int|
                0 <= x < size && 0 <= y < size && 0 <= c < 4 ==> #[trigger] dst@[cell(
                    s,
                    4,
                    x,
                    y,
                    c,
                )] == if y < y0 + row {
                    blit_value(start, s, src@, t, x0 as int, y0 as int, x, y, c)
                } else {
                    start[cell(s, 4, x, y, c)]
                },
        decreases tile - row,
    {
        let mut col: usize = 0;
        while col < tile
            invariant
                row < tile,
                col <= tile,
                dst@.len() == start.len(),
                start.len() == size * size * 4,
                x0 + tile <= size,
                y0 + tile <= size,
                src@.len() >= tile * tile * 3,
                s == size,
                t == tile,
                forall|x: int, y: int, c: int|
                    0 <= x < size && 0 <= y < size && 0 <= c < 4 ==> #[trigger] dst@[cell(
                        s,
                        4,
                        x,
                        y,
                        c,
                    )] == if y < y0 + row || (y == y0 + row && x0 <= x < x0 + col) {
                        blit_value(start, s, src@, t, x0 as int, y0 as int, x, y, c)
                    } else {
                        start[cell(s, 4, x, y, c)]
                    },
            decreases tile - col,
        {
            let ghost px = (x0 + col) as int;
            let ghost py = (y0 + row) as int;
            let n = dst.len();
            proof {
                lemma_cell_bounds(s, s, 4, px, py, 0);
                lemma_cell_bounds(t, t, 3, col as int, row as int, 0);
                assert(0 <= py * s + px <= cell(s, 4, px, py, 0)) by (nonlinear_arith)
                    requires
                        0 <= px,
                        0 <= py,
                        0 <= s,
                ;
                assert(0 <= py * s <= py * s + px);
                let (cc, rr) = (col as int, row as int);
                assert(0 <= rr * t + cc <= cell(t, 3, cc, rr, 0)) by (nonlinear_arith)
                    requires
                        0 <= cc,
                        0 <= rr,
                        0 <= t,
                ;
                assert(0 <= rr * t <= rr * t + cc);
            }
            let m = src.len();
            let o = ((y0 + row) * size + x0 + col) * 4;
            let p = (row * tile + col) * 3;
            assert(o == cell(s, 4, px, py, 0));
            assert(p == cell(t, 3, col as int, row as int, 0));
            let ghost before = dst@;
            let r = src[p];
            let g = src[p + 1];
            let b = src[p + 2];
            dst.set(o, r);
            dst.set(o + 1, g);
            dst.set(o + 2, b);
            dst.set(o + 3, 255);
            assert forall|x: int, y: int, c: int|
                0 <= x < size && 0 <= y < size && 0 <= c < 4 implies #[trigger] dst@[cell(
                    s,
                    4,
                    x,
                    y,
                    c,
                )] == if y < y0 + row || (y == y0 + row && x0 <= x < x0 + col + 1) {
                    blit_value(start, s, src@, t, x0 as int, y0 as int, x, y, c)
                } else {
                    start[cell(s, 4, x, y, c)]
                } by {
                let i = cell(s, 4, x, y, c);
                lemma_cell_bounds(s, s, 4, x, y, c);
                if x == px && y == py {
                    assert(i == o + c);
                    assert(cell(t, 3, x - x0, y - y0, c) == p + c);
                } else {
                    if o <= i < o + 4 {
                        lemma_cell_unique(s, 4, x, y, c, px, py, i - o);
                    }
                    assert(dst@[i] == before[i]);
                }
            }
            col = col + 1;
        }
        row = row + 1;
    }
}

} // verus!
