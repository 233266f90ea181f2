//! Integer side of the equirectangular land mask: filling scanline spans and
//! closing the south polar cap.
use vstd::prelude::*;

verus! {

pub open spec fn clamp_i64(v: i64, lo: i64, hi: i64) -> i64 {
    if v < lo {
        lo
    } else if v > hi {
        hi
    } else {
        v
    }
}

/// Marks columns `[clamp(a), clamp(b))` of the row starting at `row` as land,
/// with both ends clamped to `[0, w]`.
pub fn fill_span(mask: &mut Vec<u8>, row: usize, a: i64, b: i64, w: u32)
    requires
        row + w <= old(mask)@.len(),
    ensures
        final(mask)@.len() == old(mask)@.len(),
        forall|i: int|
            0 <= i < old(mask)@.len() ==> #[trigger] final(mask)@[i] == if row + clamp_i64(
                a,
                0,
                w as i64,
            ) <= i < row + clamp_i64(b, 0, w as i64) {
                255
            } else {
                old(mask)@[i]
            },
{
    let lo = if a < 0 {
        0
    } else if a > w as i64 {
        w as i64
    } else {
        a
    };
    let hi = if b < 0 {
        0
    } else if b > w as i64 {
        w as i64
    } else {
        b
    };
    let ghost start = mask@;
    let n = mask.len();
    let mut x = lo;
    while x < hi
        invariant
            n == start.len(),
            0 <= lo <= w,
            0 <= hi <= w,
            lo <= x,
            x <= hi || x == lo,
            row + w <= start.len(),
            mask@.len() == start.len(),
            forall|i: int|
                0 <= i < start.len() ==> #[trigger] mask@[i] == if row + lo <= i < row + x && lo
                    < hi {
                    255
                } else {
                    start[i]
                },
        decreases hi - x,
    {
        mask.set(row + x as usize, 255);
        x = x + 1;
    }
}

/// Number of land cells among `s[from..to)`.
pub open spec fn land_count(s: Seq<u8>, from: int, to: int) -> nat
    decreases to - from,
{
    if to <= from {
        0
    } else {
        land_count(s, from, to - 1) + if s[to - 1] > 0 {
            1nat
        } else {
            0nat
        }
    }
}

/// Row `y` is filled solid when more than a quarter of it is already land.
pub open spec fn polar_row_fills(s: Seq<u8>, w: int, y: int) -> bool {
    land_count(s, y * w, y * w + w) > w / 4
}

/// Closes the pinhole at the south pole: every row from `south_row` down
/// that is already more than a quarter land becomes solid land.
pub fn fill_polar_rows(mask: &mut Vec<u8>, w: u32, h: u32, south_row: u32)
    requires
        old(mask)@.len() == w * h,
        w * h <= u32::MAX,
    ensures
        final(mask)@.len() == old(mask)@.len(),
        forall|y: int, x: int|
            0 <= y < h && 0 <= x < w ==> #[trigger] final(mask)@[y * w + x] == if y >= south_row
                && polar_row_fills(old(mask)@, w as int, y) {
                255
            } else {
                old(mask)@[y * w + x]
            },
{
    let ghost start = mask@;
    let n = mask.len();
    let mut y = south_row;
    while y < h
        invariant
            south_row <= y,
            n == start.len(),
            mask@.len() == start.len(),
            start.len() == w * h,
            w * h <= u32::MAX,
            forall|yy: int, x: int|
                0 <= yy < h && 0 <= x < w ==> #[trigger] mask@[yy * w + x] == if yy >= south_row
                    && yy < y && polar_row_fills(start, w as int, yy) {
                    255
                } else {
                    start[yy * w + x]
                },
        decreases h - y,
    {
        proof {
            assert(y * w + w <= w * h) by (nonlinear_arith)
                requires
                    y < h,
            ;
        }
        let row = (y * w) as usize;
        let mut filled: usize = 0;
        let mut x: usize = 0;
        while x < w as usize
            invariant
                x <= w,
                row == y * w,
                row + w <= start.len(),
                n == start.len(),
                mask@.len() == start.len(),
                filled <= x,
                forall|xx: int| 0 <= xx < w ==> #[trigger] mask@[row + xx] == start[row + xx],
                filled == land_count(start, row as int, row + x),
            decreases w - x,
        {
            if mask[row + x] > 0 {
                filled = filled + 1;
            }
            x = x + 1;
        }
        let ghost before = mask@;
        if filled > (w as usize) / 4 {
            let mut x: usize = 0;
            while x < w as usize
                invariant
                    x <= w,
                    row + w <= start.len(),
                    n == start.len(),
                    mask@.len() == start.len(),
                    forall|i: int|
                        0 <= i < start.len() ==> #[trigger] mask@[i] == if row <= i < row + x {
                            255
                        } else {
                            before[i]
                        },
                decreases w - x,
            {
                mask.set(row + x, 255);
                x = x + 1;
            }
        }
        assert forall|yy: int, x: int|
            0 <= yy < h && 0 <= x < w implies #[trigger] mask@[yy * w + x] == if yy >= south_row && yy
                < y + 1 && polar_row_fills(start, w as int, yy) {
                255
            } else {
                start[yy * w + x]
            } by {
            let (yi, wi) = (y as int, w as int);
            assert(0 <= yy * wi + x < wi * (h as int)) by (nonlinear_arith)
                requires
                    0 <= yy < h,
                    0 <= x < wi,
            ;
            if yy == yi {
                assert(yy * wi + x == row + x);
                assert(before[row + x] == start[row + x]);
                assert(polar_row_fills(start, wi, yi) == (filled > w / 4));
                assert(mask@[row + x] == (if filled > w / 4 {
                    255
                } else {
                    before[row + x]
                }));
            } else if yy < yi {
                assert(yy * wi + x < yi * wi) by (nonlinear_arith)
                    requires
                        yy < yi,
                        0 <= x < wi,
                ;
                assert(mask@[yy * wi + x] == before[yy * wi + x]);
            } else {
                assert(yy * wi >= yi * wi + wi) by (nonlinear_arith)
                    requires
                        yy > yi,
                        0 <= wi,
                ;
                assert(mask@[yy * wi + x] == before[yy * wi + x]);
            }
        }
        y = y + 1;
    }
}

} // verus!
