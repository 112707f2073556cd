//! Ordered dithering using Bayer threshold matrices.
//!
//! A threshold matrix of requested size (clamped to 8×8) is cut from
//! the canonical 8×8 base pattern. The full 8×8 request returns the
//! base pattern verbatim; a smaller cut is re-ranked: each value is
//! replaced by its 0-based position in the sorted list of the cut's
//! values, which is the number of values strictly smaller than it, so
//! the result is a dense matrix of ranks.

use vstd::prelude::*;

verus! {

/// The canonical 8×8 Bayer base pattern.
pub open spec fn bayer_base() -> Seq<Seq<int>> {
    seq![
        seq![0, 48, 12, 60, 3, 51, 15, 63],
        seq![32, 16, 44, 28, 35, 19, 47, 31],
        seq![8, 56, 4, 52, 11, 59, 7, 55],
        seq![40, 24, 36, 20, 43, 27, 39, 23],
        seq![2, 50, 14, 62, 1, 49, 13, 61],
        seq![34, 18, 46, 30, 33, 17, 45, 29],
        seq![10, 58, 6, 54, 9, 57, 5, 53],
        seq![42, 26, 38, 22, 41, 25, 37, 21],
    ]
}

/// Cells with value below `v` among the first `w` of a base row.
pub open spec fn row_count_less(row: Seq<int>, w: int, v: int) -> int
    decreases w,
{
    if w <= 0 {
        0
    } else {
        row_count_less(row, w - 1, v) + if row[w - 1] < v {
            1int
        } else {
            0int
        }
    }
}

/// Cells with value below `v` in the top-left w×h block of the base
/// pattern.
pub open spec fn block_count_less(w: int, h: int, v: int) -> int
    decreases h,
{
    if h <= 0 {
        0
    } else {
        block_count_less(w, h - 1, v) + row_count_less(bayer_base()[h - 1], w, v)
    }
}

/// Value of cell (yy, xx) of the w×h threshold matrix: the base
/// pattern itself at full size, its re-ranked top-left block otherwise.
pub open spec fn spec_bayer_cell(w: int, h: int, yy: int, xx: int) -> int {
    if w == 8 && h == 8 {
        bayer_base()[yy][xx]
    } else {
        block_count_less(w, h, bayer_base()[yy][xx])
    }
}

fn bayer_base_row(r: usize) -> (row: Vec<usize>)
    requires
        r < 8,
    ensures
        row@.len() == 8,
        forall|x: int| 0 <= x < 8 ==> #[trigger] row@[x] as int == bayer_base()[r as int][x],
{
    let mut row: Vec<usize> = Vec::new();
    if r == 0 {
        row.push(0);
        row.push(48);
        row.push(12);
        row.push(60);
        row.push(3);
        row.push(51);
        row.push(15);
        row.push(63);
    } else if r == 1 {
        row.push(32);
        row.push(16);
        row.push(44);
        row.push(28);
        row.push(35);
        row.push(19);
        row.push(47);
        row.push(31);
    } else if r == 2 {
        row.push(8);
        row.push(56);
        row.push(4);
        row.push(52);
        row.push(11);
        row.push(59);
        row.push(7);
        row.push(55);
    } else if r == 3 {
        row.push(40);
        row.push(24);
        row.push(36);
        row.push(20);
        row.push(43);
        row.push(27);
        row.push(39);
        row.push(23);
    } else if r == 4 {
        row.push(2);
        row.push(50);
        row.push(14);
        row.push(62);
        row.push(1);
        row.push(49);
        row.push(13);
        row.push(61);
    } else if r == 5 {
        row.push(34);
        row.push(18);
        row.push(46);
        row.push(30);
        row.push(33);
        row.push(17);
        row.push(45);
        row.push(29);
    } else if r == 6 {
        row.push(10);
        row.push(58);
        row.push(6);
        row.push(54);
        row.push(9);
        row.push(57);
        row.push(5);
        row.push(53);
    } else {
        row.push(42);
        row.push(26);
        row.push(38);
        row.push(22);
        row.push(41);
        row.push(25);
        row.push(37);
        row.push(21);
    }
    row
}

fn bayer_base_matrix() -> (m: Vec<Vec<usize>>)
    ensures
        m@.len() == 8,
        forall|y: int| 0 <= y < 8 ==> (#[trigger] m@[y])@.len() == 8,
        forall|y: int, x: int|
            0 <= y < 8 && 0 <= x < 8 ==> #[trigger] m@[y]@[x] as int == bayer_base()[y][x],
{
    let mut m: Vec<Vec<usize>> = Vec::new();
    let mut r: usize = 0;
    while r < 8
        invariant
            0 <= r <= 8,
            m@.len() == r,
            forall|y: int| 0 <= y < r ==> (#[trigger] m@[y])@.len() == 8,
            forall|y: int, x: int|
                0 <= y < r && 0 <= x < 8 ==> #[trigger] m@[y]@[x] as int == bayer_base()[y][x],
        decreases 8 - r,
    {
        m.push(bayer_base_row(r));
        r = r + 1;
    }
    m
}

/// Count the base-pattern cells of the top-left w×h block whose value
/// is strictly below `v`.
fn count_block_less(base: &Vec<Vec<usize>>, w: usize, h: usize, v: usize) -> (c: usize)
    requires
        w <= 8,
        h <= 8,
        base@.len() == 8,
        forall|y: int| 0 <= y < 8 ==> (#[trigger] base@[y])@.len() == 8,
        forall|y: int, x: int|
            0 <= y < 8 && 0 <= x < 8 ==> #[trigger] base@[y]@[x] as int == bayer_base()[y][x],
    ensures
        c as int == block_count_less(w as int, h as int, v as int),
{
    let mut c: usize = 0;
    let mut j: usize = 0;
    while j < h
        invariant
            0 <= j <= h,
            h <= 8,
            w <= 8,
            base@.len() == 8,
            forall|y: int| 0 <= y < 8 ==> (#[trigger] base@[y])@.len() == 8,
            forall|y: int, x: int|
                0 <= y < 8 && 0 <= x < 8 ==> #[trigger] base@[y]@[x] as int == bayer_base()[y][x],
            c as int == block_count_less(w as int, j as int, v as int),
            c <= 8 * j,
        decreases h - j,
    {
        let mut i: usize = 0;
        while i < w
            invariant
                0 <= i <= w,
                0 <= j < h,
                h <= 8,
                w <= 8,
                base@.len() == 8,
                forall|y: int| 0 <= y < 8 ==> (#[trigger] base@[y])@.len() == 8,
                forall|y: int, x: int|
                    0 <= y < 8 && 0 <= x < 8 ==> #[trigger] base@[y]@[x] as int == bayer_base()[y][x],
                c as int == block_count_less(w as int, j as int, v as int) + row_count_less(
                    bayer_base()[j as int],
                    i as int,
                    v as int,
                ),
                c <= 8 * j + i,
            decreases w - i,
        {
            if base[j][i] < v {
                c = c + 1;
            }
            i = i + 1;
        }
        j = j + 1;
    }
    c
}

/// Generate a Bayer threshold matrix of the given size.
///
/// Each side is clamped to at most 8. An 8×8 request returns the base
/// pattern verbatim; a smaller request returns the re-ranked top-left
/// block, where each cell holds the number of block values strictly
/// below its own (its first position in the sorted block).
pub fn create_bayer_matrix(width: u8, height: u8) -> (m: Vec<Vec<usize>>)
    ensures
        ({
            let w = if width < 8 {
                width as int
            } else {
                8int
            };
            let h = if height < 8 {
                height as int
            } else {
                8int
            };
            m@.len() == h && (forall|y: int| 0 <= y < h ==> (#[trigger] m@[y])@.len() == w) && (
            forall|y: int, x: int|
                0 <= y < h && 0 <= x < w ==> #[trigger] m@[y]@[x] as int == spec_bayer_cell(
                    w,
                    h,
                    y,
                    x,
                ))
        }),
{
    let w: usize = if width < 8 {
        width as usize
    } else {
        8
    };
    let h: usize = if height < 8 {
        height as usize
    } else {
        8
    };
    let base = bayer_base_matrix();
    if w == 8 && h == 8 {
        return base;
    }
    let mut m: Vec<Vec<usize>> = Vec::new();
    let mut y: usize = 0;
    while y < h
        invariant
            0 <= y <= h,
            w <= 8,
            h <= 8,
            !(w == 8 && h == 8),
            base@.len() == 8,
            forall|yy: int| 0 <= yy < 8 ==> (#[trigger] base@[yy])@.len() == 8,
            forall|yy: int, xx: int|
                0 <= yy < 8 && 0 <= xx < 8 ==> #[trigger] base@[yy]@[xx] as int == bayer_base(
                )[yy][xx],
            m@.len() == y,
            forall|yy: int| 0 <= yy < y ==> (#[trigger] m@[yy])@.len() == w,
            forall|yy: int, xx: int|
                0 <= yy < y && 0 <= xx < w ==> #[trigger] m@[yy]@[xx] as int == spec_bayer_cell(
                    w as int,
                    h as int,
                    yy,
                    xx,
                ),
        decreases h - y,
    {
        let mut row: Vec<usize> = Vec::new();
        let mut x: usize = 0;
        while x < w
            invariant
                0 <= x <= w,
                0 <= y < h,
                w <= 8,
                h <= 8,
                !(w == 8 && h == 8),
                base@.len() == 8,
                forall|yy: int| 0 <= yy < 8 ==> (#[trigger] base@[yy])@.len() == 8,
                forall|yy: int, xx: int|
                    0 <= yy < 8 && 0 <= xx < 8 ==> #[trigger] base@[yy]@[xx] as int == bayer_base(
                    )[yy][xx],
                row@.len() == x,
                forall|xx: int|
                    0 <= xx < x ==> #[trigger] row@[xx] as int == spec_bayer_cell(
                        w as int,
                        h as int,
                        y as int,
                        xx,
                    ),
            decreases w - x,
        {
            let rank = count_block_less(&base, w, h, base[y][x]);
            row.push(rank);
            x = x + 1;
        }
        m.push(row);
        y = y + 1;
    }
    m
}

proof fn lemma_row_count_le(row: Seq<int>, w: int, v: int)
    requires
        w >= 0,
    ensures
        0 <= row_count_less(row, w, v) <= w,
    decreases w,
{
    if w > 0 {
        lemma_row_count_le(row, w - 1, v);
    }
}

proof fn lemma_block_count_le(w: int, h: int, v: int)
    requires
        w >= 0,
        h >= 0,
    ensures
        0 <= block_count_less(w, h, v) <= w * h,
    decreases h,
{
    if h > 0 {
        lemma_block_count_le(w, h - 1, v);
        lemma_row_count_le(bayer_base()[h - 1], w, v);
        assert(w * (h - 1) + w == w * h) by (nonlinear_arith);
    } else {
        assert(w * h == 0) by (nonlinear_arith)
            requires
                h == 0,
        ;
    }
}

/// Every cell of a w×h threshold matrix is a value below 64: the base
/// pattern's values are, and a re-ranked block of at most 8×7 cells
/// has ranks below 56.
pub proof fn lemma_bayer_cell_bounds(w: int, h: int, yy: int, xx: int)
    requires
        1 <= w <= 8,
        1 <= h <= 8,
        0 <= yy < h,
        0 <= xx < w,
    ensures
        0 <= spec_bayer_cell(w, h, yy, xx) < 64,
{
    if w == 8 && h == 8 {
        assert(0 <= bayer_base()[yy][xx] < 64);
    } else {
        lemma_block_count_le(w, h, bayer_base()[yy][xx]);
        assert(w * h <= 56) by (nonlinear_arith)
            requires
                1 <= w <= 8,
                1 <= h <= 8,
                !(w == 8 && h == 8),
        ;
    }
}

/// A channel after adding a non-negative adjustment, clamped at 255.
pub open spec fn clamp255(v: u8, adj: int) -> u8
    recommends
        adj >= 0,
{
    if v + adj > 255 {
        255u8
    } else {
        (v + adj) as u8
    }
}

/// The threshold adjustment for a matrix cell: the cell's rank as a
/// fraction of the cell count, scaled by the threshold strength,
/// rounded down.
pub open spec fn ordered_adjust(cell: int, mw: int, mh: int, threshold: int) -> int
    recommends
        mw > 0,
        mh > 0,
{
    (cell * threshold) / (mh * mw)
}

/// Apply ordered dithering to one pixel value.
///
/// Adds the position-dependent threshold adjustment for (x, y) to
/// every channel, clamping at 255. The matrix tiles the image by
/// modulo indexing.
pub fn apply_ordered_dither(
    pixel: [u8; 3],
    x: usize,
    y: usize,
    threshold_map: &Vec<Vec<usize>>,
    threshold: u32,
) -> (r: [u8; 3])
    requires
        threshold_map@.len() > 0,
        threshold_map@.len() <= 8,
        threshold_map@[0]@.len() > 0,
        threshold_map@[0]@.len() <= 8,
        forall|yy: int|
            0 <= yy < threshold_map@.len() ==> (#[trigger] threshold_map@[yy])@.len()
                == threshold_map@[0]@.len(),
        forall|yy: int, xx: int|
            0 <= yy < threshold_map@.len() && 0 <= xx < threshold_map@[0]@.len()
                ==> #[trigger] threshold_map@[yy]@[xx] < 64,
    ensures
        ({
            let mh = threshold_map@.len() as int;
            let mw = threshold_map@[0]@.len() as int;
            let cell = threshold_map@[(y as int) % mh]@[(x as int) % mw] as int;
            let adj = ordered_adjust(cell, mw, mh, threshold as int);
            r[0] == clamp255(pixel[0], adj) && r[1] == clamp255(pixel[1], adj) && r[2] == clamp255(
                pixel[2],
                adj,
            )
        }),
{
    let mh = threshold_map.len();
    let mw = threshold_map[0].len();
    let cell = threshold_map[y % mh][x % mw];
    proof {
        assert(cell as int * threshold as int <= 63 * 0xffff_ffff) by (nonlinear_arith)
            requires
                cell < 64,
                threshold <= 0xffff_ffff,
        ;
        assert(0 < mh * mw <= 64) by (nonlinear_arith)
            requires
                0 < mh <= 8,
                0 < mw <= 8,
        ;
    }
    let adj: u64 = (cell as u64) * (threshold as u64) / ((mh as u64) * (mw as u64));
    let r0: u64 = pixel[0] as u64 + adj;
    let r1: u64 = pixel[1] as u64 + adj;
    let r2: u64 = pixel[2] as u64 + adj;
    [
        if r0 > 255 {
            255
        } else {
            r0 as u8
        },
        if r1 > 255 {
            255
        } else {
            r1 as u8
        },
        if r2 > 255 {
            255
        } else {
            r2 as u8
        },
    ]
}

} // verus!
