//! Error diffusion dithering.
//!
//! The engine scans the buffer row by row, quantizes each pixel to the
//! nearest palette color, and spreads the signed quantization error to
//! neighbors scanned later, per the active kernel. A receiving channel
//! adds `err * num / den` rounded to the nearest whole number (an
//! exact half rounds up) and clamps to 0..=255 immediately, per
//! neighbor, never batched. Neighbors outside the image are skipped: edges lose
//! that fraction of the error. With serpentine scanning, odd rows run
//! right to left and the kernel's column offsets are mirrored so the
//! error still flows in the direction of travel.

use vstd::prelude::*;

use vstd::arithmetic::div_mod::{
    lemma_basic_div, lemma_fundamental_div_mod, lemma_fundamental_div_mod_converse_div,
};

use crate::color::distance::find_closest_color;
use crate::color::Rgb;
use crate::dither::engine::{
    buf_pixel, lemma_pixel_disjoint, pixel_base, pixel_in_palette, pixel_is, pixel_same,
    quantized_pixel,
};
use crate::dither::matrices::{
    entry_wf, get_diffusion_matrix, lemma_kernel_weights_sum_to_one, spec_kernel, DiffusionEntry,
};
use crate::dither::ErrorDiffusionKernel;

verus! {

/// Value of a channel after adding a signed delta, clamped to 0..=255.
pub open spec fn clamp_add(v: u8, delta: int) -> u8 {
    if v + delta < 0 {
        0u8
    } else if v + delta > 255 {
        255u8
    } else {
        (v + delta) as u8
    }
}

/// The weighted error `err * num / den`, rounded to the nearest whole
/// number; an exact half rounds up. Adding this to a channel and
/// clamping equals clamping the exact sum and rounding it to the
/// nearest representable 8-bit value.
pub open spec fn weighted_error(err: int, num: int, den: int) -> int
    recommends
        den > 0,
{
    (2 * err * num + den) / (2 * den)
}

/// Column that receives a kernel entry's error: the column offset is
/// applied in the direction of travel, so it is mirrored on reversed
/// rows.
pub open spec fn spec_neighbor_col(x: int, dx: int, reversed: bool) -> int {
    if reversed {
        x - dx
    } else {
        x + dx
    }
}

/// On a reversed (serpentine, odd) row a (+1, 0) kernel entry deposits
/// its error one column to the left of the current pixel; on a forward
/// row, one column to the right.
pub proof fn lemma_serpentine_mirrors_offset(x: int)
    ensures
        spec_neighbor_col(x, 1, true) == x - 1,
        spec_neighbor_col(x, 1, false) == x + 1,
{
}

/// (xx, yy) is scanned strictly after (x, y) when row y runs in the
/// given direction.
pub open spec fn scan_after(x: int, y: int, reversed: bool, xx: int, yy: int) -> bool {
    yy > y || (yy == y && (if reversed {
        xx < x
    } else {
        xx > x
    }))
}

proof fn lemma_neg_div(p: int, d: int)
    requires
        p >= 0,
        d > 0,
    ensures
        (-p) / d == -((p + d - 1) / d),
{
    let c = (p + d - 1) / d;
    lemma_fundamental_div_mod(p + d - 1, d);
    let r = (p + d - 1) % d;
    let r2 = d * c - p;
    assert(0 <= r2 < d);
    assert(-p == (-c) * d + r2) by (nonlinear_arith)
        requires
            r2 == d * c - p,
    ;
    lemma_fundamental_div_mod_converse_div(-p, d, -c, r2);
}

/// Add the weighted error `err * num / den` to the byte at `idx`,
/// clamping to 0..=255.
fn add_channel_error(buffer: &mut Vec<u8>, idx: usize, err: i32, num: u32, den: u32)
    requires
        idx < old(buffer)@.len(),
        -255 <= err <= 255,
        0 < num <= den,
        den <= 48,
    ensures
        final(buffer)@ =~= old(buffer)@.update(
            idx as int,
            clamp_add(
                old(buffer)@[idx as int],
                weighted_error(err as int, num as int, den as int),
            ),
        ),
{
    let old_v = buffer[idx];
    let new_v: u8;
    if err >= 0 {
        proof {
            assert(err * num <= 255 * 48) by (nonlinear_arith)
                requires
                    0 <= err <= 255,
                    0 < num <= 48,
            ;
        }
        let p: u32 = (err as u32) * num;
        proof {
            assert(2 * (err as int) * (num as int) == 2 * (p as int)) by (nonlinear_arith)
                requires
                    p as int == (err as int) * (num as int),
            ;
        }
        let q: u32 = (2 * p + den) / (2 * den);
        assert(q as int == weighted_error(err as int, num as int, den as int));
        let s: u32 = old_v as u32 + q;
        if s > 255 {
            new_v = 255;
        } else {
            new_v = s as u8;
        }
    } else {
        let m: u32 = (-err) as u32;
        proof {
            assert(m * num <= 255 * 48) by (nonlinear_arith)
                requires
                    0 < m <= 255,
                    0 < num <= 48,
            ;
        }
        let p: u32 = m * num;
        proof {
            assert(err as int * num as int == -(p as int)) by (nonlinear_arith)
                requires
                    p == m * num,
                    m as int == -(err as int),
            ;
            assert(2 * (err as int) * (num as int) == -2 * (p as int)) by (nonlinear_arith)
                requires
                    (err as int) * (num as int) == -(p as int),
            ;
        }
        if 2 * p <= den {
            // a weighted error of at least -1/2 rounds to zero
            proof {
                lemma_basic_div(den - 2 * (p as int), 2 * (den as int));
            }
            assert(weighted_error(err as int, num as int, den as int) == 0);
            new_v = old_v;
        } else {
            let q: u32 = (2 * p + den - 1) / (2 * den);
            proof {
                lemma_neg_div(2 * p - den, 2 * (den as int));
            }
            assert(weighted_error(err as int, num as int, den as int) == -(q as int));
            if q > old_v as u32 {
                new_v = 0;
            } else {
                new_v = old_v - (q as u8);
            }
        }
    }
    buffer.set(idx, new_v);
}

/// Buffer after the given kernel entries, applied in order, have each
/// added its share of the error to its in-bounds target pixel.
pub open spec fn diffuse_targets(
    buf: Seq<u8>,
    w: int,
    h: int,
    x: int,
    y: int,
    reversed: bool,
    entries: Seq<DiffusionEntry>,
    er: int,
    eg: int,
    eb: int,
) -> Seq<u8>
    decreases entries.len(),
{
    if entries.len() == 0 {
        buf
    } else {
        let prev = diffuse_targets(buf, w, h, x, y, reversed, entries.drop_last(), er, eg, eb);
        let e = entries.last();
        let nx = spec_neighbor_col(x, e.dx as int, reversed);
        let ny = y + e.dy;
        if 0 <= nx < w && 0 <= ny < h {
            let b = pixel_base(w, nx, ny);
            prev.update(b, clamp_add(prev[b], weighted_error(er, e.num as int, e.den as int)))
                .update(
                b + 1,
                clamp_add(prev[b + 1], weighted_error(eg, e.num as int, e.den as int)),
            ).update(b + 2, clamp_add(prev[b + 2], weighted_error(eb, e.num as int, e.den as int)))
        } else {
            prev
        }
    }
}

/// One scan step: quantize pixel (x, y) to the nearest palette color
/// and spread the quantization error over the kernel's targets.
pub open spec fn spec_diffuse_pixel(
    buf: Seq<u8>,
    w: int,
    h: int,
    x: int,
    y: int,
    reversed: bool,
    entries: Seq<DiffusionEntry>,
    pal: Seq<Rgb>,
) -> Seq<u8> {
    let base = pixel_base(w, x, y);
    let oldc = buf_pixel(buf, base);
    let q = quantized_pixel(pal, oldc);
    let wrote = buf.update(base, q.0[0]).update(base + 1, q.0[1]).update(base + 2, q.0[2]);
    diffuse_targets(
        wrote,
        w,
        h,
        x,
        y,
        reversed,
        entries,
        oldc.0[0] - q.0[0],
        oldc.0[1] - q.0[1],
        oldc.0[2] - q.0[2],
    )
}

/// Column scanned at step t of a row.
pub open spec fn scan_x(w: int, reversed: bool, t: int) -> int {
    if reversed {
        w - 1 - t
    } else {
        t
    }
}

/// Under serpentine scanning, odd rows run right to left.
pub open spec fn row_reversed(serpentine: bool, y: int) -> bool {
    serpentine && y % 2 == 1
}

/// Buffer after the first t steps of row y.
pub open spec fn spec_diffuse_row(
    buf: Seq<u8>,
    w: int,
    h: int,
    y: int,
    serpentine: bool,
    entries: Seq<DiffusionEntry>,
    pal: Seq<Rgb>,
    t: int,
) -> Seq<u8>
    decreases t,
{
    if t <= 0 {
        buf
    } else {
        let prev = spec_diffuse_row(buf, w, h, y, serpentine, entries, pal, t - 1);
        let reversed = row_reversed(serpentine, y);
        spec_diffuse_pixel(prev, w, h, scan_x(w, reversed, t - 1), y, reversed, entries, pal)
    }
}

/// Buffer after the first `rows` rows of the scan.
pub open spec fn spec_error_diffusion(
    buf: Seq<u8>,
    w: int,
    h: int,
    serpentine: bool,
    entries: Seq<DiffusionEntry>,
    pal: Seq<Rgb>,
    rows: int,
) -> Seq<u8>
    decreases rows,
{
    if rows <= 0 {
        buf
    } else {
        spec_diffuse_row(
            spec_error_diffusion(buf, w, h, serpentine, entries, pal, rows - 1),
            w,
            h,
            rows - 1,
            serpentine,
            entries,
            pal,
            w,
        )
    }
}

/// Columns already visited after t steps of a row.
pub open spec fn row_visited(w: int, t: int, reversed: bool, xx: int) -> bool {
    if reversed {
        w - t <= xx < w
    } else {
        0 <= xx < t
    }
}

/// Quantize pixel (x, y) and spread its quantization error.
///
/// Only the current pixel and pixels scanned strictly after it change;
/// the current pixel ends up holding the palette color nearest to its
/// previous value.
fn diffuse_pixel(
    buffer: &mut Vec<u8>,
    width: usize,
    height: usize,
    x: usize,
    y: usize,
    reversed: bool,
    entries: &Vec<DiffusionEntry>,
    palette: &[Rgb],
)
    requires
        old(buffer)@.len() == width * height * 3,
        x < width,
        y < height,
        palette@.len() > 0,
        forall|i: int| 0 <= i < entries@.len() ==> entry_wf(#[trigger] entries@[i]),
    ensures
        final(buffer)@.len() == old(buffer)@.len(),
        final(buffer)@ =~= spec_diffuse_pixel(
            old(buffer)@,
            width as int,
            height as int,
            x as int,
            y as int,
            reversed,
            entries@,
            palette@,
        ),
        pixel_is(
            final(buffer)@,
            pixel_base(width as int, x as int, y as int),
            quantized_pixel(
                palette@,
                buf_pixel(old(buffer)@, pixel_base(width as int, x as int, y as int)),
            ),
        ),
        pixel_in_palette(final(buffer)@, pixel_base(width as int, x as int, y as int), palette@),
        forall|xx: int, yy: int|
            0 <= xx < width && 0 <= yy < height && !scan_after(x as int, y as int, reversed, xx, yy)
                && !(xx == x && yy == y) ==> pixel_same(
                final(buffer)@,
                old(buffer)@,
                pixel_base(width as int, xx, yy),
            ),
{
    proof {
        assert(buffer.len() == buffer@.len());
        assert(y * width <= y * width + x < width * height && (y * width + x) * 3 + 2 < width
            * height * 3 && width * 3 <= width * height * 3 && height * 3 <= width * height * 3)
            by (nonlinear_arith)
            requires
                0 <= x < width,
                0 <= y < height,
        ;
    }
    let base = (y * width + x) * 3;
    let oldc = Rgb([buffer[base], buffer[base + 1], buffer[base + 2]]);
    proof {
        assert(oldc.0 =~= buf_pixel(old(buffer)@, base as int).0);
        assert(oldc == buf_pixel(old(buffer)@, base as int));
    }
    let r = find_closest_color(&oldc, palette);
    let (pi, np) = r.unwrap();
    buffer.set(base, np.0[0]);
    buffer.set(base + 1, np.0[1]);
    buffer.set(base + 2, np.0[2]);
    let ghost wrote = buffer@;
    proof {
        assert forall|xx: int, yy: int|
            0 <= xx < width && 0 <= yy < height && !(xx == x && yy == y) implies pixel_same(
            buffer@,
            old(buffer)@,
            pixel_base(width as int, xx, yy),
        ) by {
            lemma_pixel_disjoint(width as int, xx, yy, x as int, y as int);
            assert(0 <= pixel_base(width as int, xx, yy) && pixel_base(width as int, xx, yy) + 2
                < width * height * 3) by (nonlinear_arith)
                requires
                    0 <= xx < width,
                    0 <= yy < height,
            ;
        }
    }
    let err_r = oldc.0[0] as i32 - np.0[0] as i32;
    let err_g = oldc.0[1] as i32 - np.0[1] as i32;
    let err_b = oldc.0[2] as i32 - np.0[2] as i32;
    let mut i: usize = 0;
    while i < entries.len()
        invariant
            old(buffer)@.len() == width * height * 3,
            buffer@.len() == width * height * 3,
            width * 3 <= width * height * 3,
            height * 3 <= width * height * 3,
            x < width,
            y < height,
            palette@.len() > 0,
            forall|k: int| 0 <= k < entries@.len() ==> entry_wf(#[trigger] entries@[k]),
            i <= entries@.len(),
            base == pixel_base(width as int, x as int, y as int),
            base + 2 < width * height * 3,
            oldc == buf_pixel(old(buffer)@, base as int),
            np == quantized_pixel(palette@, oldc),
            pi < palette@.len(),
            np == palette@[pi as int],
            err_r == oldc.0[0] - np.0[0],
            err_g == oldc.0[1] - np.0[1],
            err_b == oldc.0[2] - np.0[2],
            wrote =~= old(buffer)@.update(base as int, np.0[0]).update(
                base as int + 1,
                np.0[1],
            ).update(base as int + 2, np.0[2]),
            buffer@ =~= diffuse_targets(
                wrote,
                width as int,
                height as int,
                x as int,
                y as int,
                reversed,
                entries@.take(i as int),
                err_r as int,
                err_g as int,
                err_b as int,
            ),
            pixel_is(buffer@, base as int, np),
            forall|xx: int, yy: int|
                0 <= xx < width && 0 <= yy < height && !scan_after(
                    x as int,
                    y as int,
                    reversed,
                    xx,
                    yy,
                ) && !(xx == x && yy == y) ==> pixel_same(
                    buffer@,
                    old(buffer)@,
                    pixel_base(width as int, xx, yy),
                ),
        decreases entries@.len() - i,
    {
        proof {
            assert(buffer.len() == buffer@.len());
        }
        let e = entries[i];
        let nxi: i64 = if reversed {
            x as i64 - e.dx as i64
        } else {
            x as i64 + e.dx as i64
        };
        let nyi: i64 = y as i64 + e.dy as i64;
        proof {
            assert(entries@.take(i + 1).drop_last() =~= entries@.take(i as int));
            assert(entries@.take(i + 1).last() == entries@[i as int]);
            assert(nxi == spec_neighbor_col(x as int, e.dx as int, reversed));
            assert(nyi == y + e.dy);
        }
        if 0 <= nxi && nxi < width as i64 && 0 <= nyi && nyi < height as i64 {
            let nx = nxi as usize;
            let ny = nyi as usize;
            proof {
                assert(ny * width <= ny * width + nx < width * height && (ny * width + nx) * 3
                    + 2 < width * height * 3) by (nonlinear_arith)
                    requires
                        0 <= nx < width,
                        0 <= ny < height,
                ;
            }
            let nbase = (ny * width + nx) * 3;
            let ghost prevb = buffer@;
            add_channel_error(buffer, nbase, err_r, e.num, e.den);
            add_channel_error(buffer, nbase + 1, err_g, e.num, e.den);
            add_channel_error(buffer, nbase + 2, err_b, e.num, e.den);
            proof {
                assert(nbase == pixel_base(width as int, nx as int, ny as int));
                // the target is scanned strictly after the current pixel
                assert(scan_after(x as int, y as int, reversed, nx as int, ny as int));
                assert(nx != x || ny != y);
                assert forall|j: int|
                    0 <= j < prevb.len() && !(nbase <= j <= nbase + 2) implies buffer@[j]
                    == #[trigger] prevb[j] by {}
                lemma_pixel_disjoint(width as int, x as int, y as int, nx as int, ny as int);
                assert(pixel_is(buffer@, base as int, np));
                assert(buffer@ =~= diffuse_targets(
                    wrote,
                    width as int,
                    height as int,
                    x as int,
                    y as int,
                    reversed,
                    entries@.take(i + 1),
                    err_r as int,
                    err_g as int,
                    err_b as int,
                ));
                assert forall|xx: int, yy: int|
                    0 <= xx < width && 0 <= yy < height && !scan_after(
                        x as int,
                        y as int,
                        reversed,
                        xx,
                        yy,
                    ) && !(xx == x && yy == y) implies pixel_same(
                    buffer@,
                    old(buffer)@,
                    pixel_base(width as int, xx, yy),
                ) by {
                    assert(0 <= pixel_base(width as int, xx, yy) && pixel_base(width as int, xx, yy)
                        + 2 < width * height * 3) by (nonlinear_arith)
                        requires
                            0 <= xx < width,
                            0 <= yy < height,
                    ;
                    assert(pixel_same(prevb, old(buffer)@, pixel_base(width as int, xx, yy)));
                    assert(xx != nx || yy != ny);
                    lemma_pixel_disjoint(width as int, xx, yy, nx as int, ny as int);
                }
            }
        } else {
            proof {
                assert(buffer@ =~= diffuse_targets(
                    wrote,
                    width as int,
                    height as int,
                    x as int,
                    y as int,
                    reversed,
                    entries@.take(i + 1),
                    err_r as int,
                    err_g as int,
                    err_b as int,
                ));
            }
        }
        i = i + 1;
    }
    proof {
        assert(entries@.take(entries@.len() as int) =~= entries@);
    }
}

/// Apply error diffusion dithering to an image buffer in place.
///
/// Scans top to bottom; rows run left to right, or alternate direction
/// when `serpentine` is set. The result is exactly the scan described
/// by `spec_error_diffusion`, and every pixel of the result holds a
/// palette color.
pub fn apply_error_diffusion(
    buffer: &mut Vec<u8>,
    width: usize,
    height: usize,
    palette: &[Rgb],
    kernel: ErrorDiffusionKernel,
    serpentine: bool,
)
    requires
        old(buffer)@.len() == width * height * 3,
        palette@.len() > 0,
    ensures
        final(buffer)@.len() == old(buffer)@.len(),
        final(buffer)@ =~= spec_error_diffusion(
            old(buffer)@,
            width as int,
            height as int,
            serpentine,
            spec_kernel(kernel),
            palette@,
            height as int,
        ),
        forall|x: int, y: int|
            0 <= x < width && 0 <= y < height ==> pixel_in_palette(
                final(buffer)@,
                pixel_base(width as int, x, y),
                palette@,
            ),
{
    let entries = get_diffusion_matrix(kernel);
    proof {
        lemma_kernel_weights_sum_to_one(kernel);
    }
    let mut y: usize = 0;
    while y < height
        invariant
            old(buffer)@.len() == width * height * 3,
            buffer@.len() == width * height * 3,
            palette@.len() > 0,
            entries@ =~= spec_kernel(kernel),
            forall|k: int| 0 <= k < entries@.len() ==> entry_wf(#[trigger] entries@[k]),
            y <= height,
            buffer@ =~= spec_error_diffusion(
                old(buffer)@,
                width as int,
                height as int,
                serpentine,
                spec_kernel(kernel),
                palette@,
                y as int,
            ),
            forall|xx: int, yy: int|
                0 <= xx < width && 0 <= yy < y ==> pixel_in_palette(
                    buffer@,
                    pixel_base(width as int, xx, yy),
                    palette@,
                ),
        decreases height - y,
    {
        let reversed = serpentine && y % 2 == 1;
        let ghost row_start = buffer@;
        let mut t: usize = 0;
        while t < width
            invariant
                old(buffer)@.len() == width * height * 3,
                buffer@.len() == width * height * 3,
                palette@.len() > 0,
                entries@ =~= spec_kernel(kernel),
                forall|k: int| 0 <= k < entries@.len() ==> entry_wf(#[trigger] entries@[k]),
                t <= width,
                y < height,
                reversed == row_reversed(serpentine, y as int),
                buffer@ =~= spec_diffuse_row(
                    row_start,
                    width as int,
                    height as int,
                    y as int,
                    serpentine,
                    spec_kernel(kernel),
                    palette@,
                    t as int,
                ),
                row_start =~= spec_error_diffusion(
                    old(buffer)@,
                    width as int,
                    height as int,
                    serpentine,
                    spec_kernel(kernel),
                    palette@,
                    y as int,
                ),
                forall|xx: int, yy: int|
                    0 <= xx < width && 0 <= yy < y ==> pixel_in_palette(
                        buffer@,
                        pixel_base(width as int, xx, yy),
                        palette@,
                    ),
                forall|xx: int|
                    row_visited(width as int, t as int, reversed, xx) ==> pixel_in_palette(
                        buffer@,
                        pixel_base(width as int, xx, y as int),
                        palette@,
                    ),
            decreases width - t,
        {
            let x = if reversed {
                width - 1 - t
            } else {
                t
            };
            let ghost before = buffer@;
            diffuse_pixel(buffer, width, height, x, y, reversed, &entries, palette);
            proof {
                assert(x as int == scan_x(width as int, reversed, t as int));
                assert(buffer@ =~= spec_diffuse_row(
                    row_start,
                    width as int,
                    height as int,
                    y as int,
                    serpentine,
                    spec_kernel(kernel),
                    palette@,
                    t + 1,
                ));
                assert forall|xx: int, yy: int| 0 <= xx < width && 0 <= yy < y implies
                    pixel_in_palette(buffer@, pixel_base(width as int, xx, yy), palette@) by {
                    assert(0 <= xx < width && 0 <= yy < height);
                    assert(!scan_after(x as int, y as int, reversed, xx, yy));
                    assert(!(xx == x as int && yy == y as int));
                    assert(pixel_same(buffer@, before, pixel_base(width as int, xx, yy)));
                    let k = choose|k: int|
                        0 <= k < palette@.len() && pixel_is(
                            before,
                            pixel_base(width as int, xx, yy),
                            #[trigger] palette@[k],
                        );
                    assert(pixel_is(buffer@, pixel_base(width as int, xx, yy), palette@[k]));
                }
                assert forall|xx: int|
                    row_visited(width as int, t + 1, reversed, xx) implies pixel_in_palette(
                    buffer@,
                    pixel_base(width as int, xx, y as int),
                    palette@,
                ) by {
                    if xx == x {
                    } else {
                        assert(row_visited(width as int, t as int, reversed, xx));
                        assert(0 <= pixel_base(width as int, xx, y as int) && pixel_base(
                            width as int,
                            xx,
                            y as int,
                        ) + 2 < width * height * 3) by (nonlinear_arith)
                            requires
                                0 <= xx < width,
                                0 <= y < height,
                        ;
                        assert(!scan_after(x as int, y as int, reversed, xx, y as int));
                        assert(pixel_same(buffer@, before, pixel_base(width as int, xx, y as int)));
                        let k = choose|k: int|
                            0 <= k < palette@.len() && pixel_is(
                                before,
                                pixel_base(width as int, xx, y as int),
                                #[trigger] palette@[k],
                            );
                        assert(pixel_is(
                            buffer@,
                            pixel_base(width as int, xx, y as int),
                            palette@[k],
                        ));
                    }
                }
            }
            t = t + 1;
        }
        proof {
            assert(buffer@ =~= spec_error_diffusion(
                old(buffer)@,
                width as int,
                height as int,
                serpentine,
                spec_kernel(kernel),
                palette@,
                y + 1,
            ));
            assert forall|xx: int, yy: int| 0 <= xx < width && 0 <= yy < y + 1 implies
                pixel_in_palette(buffer@, pixel_base(width as int, xx, yy), palette@) by {
                if yy == y {
                    assert(row_visited(width as int, width as int, reversed, xx));
                }
            }
        }
        y = y + 1;
    }
}

} // verus!
