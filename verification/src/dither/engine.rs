//! Dithering engine that coordinates the algorithms over a pixel
//! buffer.
//!
//! The buffer is a flat, row-major sequence of 8-bit channel values,
//! three per pixel, of length `width * height * 3`. The engine mutates
//! it in place: one dithering pass, then optionally an exact
//! color-replacement pass.

use vstd::prelude::*;

use crate::color::distance::{closest_idx, find_closest_color};
use crate::color::Rgb;
use crate::dither::algorithms::error_diffusion::{apply_error_diffusion, spec_error_diffusion};
use crate::dither::algorithms::ordered::{
    apply_ordered_dither, clamp255, create_bayer_matrix, lemma_bayer_cell_bounds, ordered_adjust,
    spec_bayer_cell,
};
use crate::dither::algorithms::random::apply_random_dither;
use crate::dither::matrices::spec_kernel;
use crate::dither::{DitherOptions, DitheringAlgorithm, RandomMode};
use crate::error::DitherError;

verus! {

/// Strength of the ordered-dither threshold adjustment (256 / 4).
pub const THRESHOLD_STRENGTH: u32 = 64;

/// Byte index of the first channel of pixel (x, y).
pub open spec fn pixel_base(w: int, x: int, y: int) -> int {
    3 * (y * w + x)
}

/// The pixel whose channels start at `base`.
pub open spec fn buf_pixel(buf: Seq<u8>, base: int) -> Rgb {
    (Rgb([buf[base], buf[base + 1], buf[base + 2]]))
}

/// The pixel starting at `base` holds exactly the color `c`.
pub open spec fn pixel_is(buf: Seq<u8>, base: int, c: Rgb) -> bool {
    buf[base] == c.0[0] && buf[base + 1] == c.0[1] && buf[base + 2] == c.0[2]
}

/// The pixel starting at `base` holds one of the palette's colors.
pub open spec fn pixel_in_palette(buf: Seq<u8>, base: int, pal: Seq<Rgb>) -> bool {
    exists|k: int| 0 <= k < pal.len() && pixel_is(buf, base, #[trigger] pal[k])
}

/// Two buffers agree on the three channels starting at `base`.
pub open spec fn pixel_same(a: Seq<u8>, b: Seq<u8>, base: int) -> bool {
    a[base] == b[base] && a[base + 1] == b[base + 1] && a[base + 2] == b[base + 2]
}

/// The palette entry nearest to `c`, ties to the lowest index.
pub open spec fn quantized_pixel(pal: Seq<Rgb>, c: Rgb) -> Rgb {
    pal[closest_idx(c, pal)]
}

/// Distinct pixels occupy disjoint byte ranges.
pub proof fn lemma_pixel_disjoint(w: int, x1: int, y1: int, x2: int, y2: int)
    requires
        0 <= x1 < w,
        0 <= x2 < w,
        0 <= y1,
        0 <= y2,
        x1 != x2 || y1 != y2,
    ensures
        pixel_base(w, x1, y1) + 2 < pixel_base(w, x2, y2) || pixel_base(w, x2, y2) + 2
            < pixel_base(w, x1, y1),
{
    assert(y1 * w + x1 != y2 * w + x2) by (nonlinear_arith)
        requires
            0 <= x1 < w,
            0 <= x2 < w,
            0 <= y1,
            0 <= y2,
            x1 != x2 || y1 != y2,
    ;
}

/// A requested matrix side, clamped to at most 8.
pub open spec fn clamp8(v: int) -> int {
    if v < 8 {
        v
    } else {
        8
    }
}

/// The color pixel (x, y) takes under ordered dithering: its original
/// value, adjusted by the position's threshold and quantized to the
/// nearest palette entry.
pub open spec fn spec_ordered_result(
    pal: Seq<Rgb>,
    bw: int,
    bh: int,
    threshold: int,
    c: Rgb,
    x: int,
    y: int,
) -> Rgb {
    let mw = clamp8(bw);
    let mh = clamp8(bh);
    let cell = spec_bayer_cell(mw, mh, y % mh, x % mw);
    let adj = ordered_adjust(cell, mw, mh, threshold);
    quantized_pixel(pal, (Rgb([clamp255(c.0[0], adj), clamp255(c.0[1], adj), clamp255(c.0[2], adj)])))
}

/// Index of the first palette entry exactly equal to `c`, or -1.
pub open spec fn first_match(pal: Seq<Rgb>, c: Rgb) -> int
    decreases pal.len(),
{
    if pal.len() == 0 {
        -1
    } else if pal[0] == c {
        0
    } else {
        let r = first_match(pal.drop_first(), c);
        if r < 0 {
            -1
        } else {
            r + 1
        }
    }
}

/// Number of the first `n` pixels of `buf` that match no entry of
/// `orig` exactly.
pub open spec fn spec_mismatches(buf: Seq<u8>, orig: Seq<Rgb>, n: int) -> int
    decreases n,
{
    if n <= 0 {
        0
    } else {
        spec_mismatches(buf, orig, n - 1) + if first_match(orig, buf_pixel(buf, 3 * (n - 1))) < 0 {
            1int
        } else {
            0int
        }
    }
}

proof fn lemma_first_match_at(pal: Seq<Rgb>, c: Rgb, i: int)
    requires
        0 <= i <= pal.len(),
        forall|k: int| 0 <= k < i ==> #[trigger] pal[k] != c,
        i == pal.len() || pal[i] == c,
    ensures
        first_match(pal, c) == if i == pal.len() {
            -1int
        } else {
            i
        },
    decreases i,
{
    if i == 0 {
    } else {
        lemma_first_match_at(pal.drop_first(), c, i - 1);
        assert forall|k: int| 0 <= k < i - 1 implies #[trigger] pal.drop_first()[k] != c by {
            assert(pal.drop_first()[k] == pal[k + 1]);
        }
    }
}

/// Find the first palette entry exactly equal to the given channels.
fn find_exact(pal: &[Rgb], c0: u8, c1: u8, c2: u8) -> (r: Option<usize>)
    ensures
        r is Some <==> first_match(pal@, (Rgb([c0, c1, c2]))) >= 0,
        r matches Some(k) ==> k < pal@.len() && k as int == first_match(pal@, (Rgb([c0, c1, c2]))),
{
    let ghost c = (Rgb([c0, c1, c2]));
    let mut k: usize = 0;
    while k < pal.len()
        invariant
            0 <= k <= pal@.len(),
            c == (Rgb([c0, c1, c2])),
            forall|j: int| 0 <= j < k ==> #[trigger] pal@[j] != c,
        decreases pal@.len() - k,
    {
        let e = pal[k];
        if e.0[0] == c0 && e.0[1] == c1 && e.0[2] == c2 {
            proof {
                assert(pal@[k as int].0 =~= c.0);
                lemma_first_match_at(pal@, c, k as int);
            }
            return Some(k);
        }
        k = k + 1;
    }
    proof {
        lemma_first_match_at(pal@, c, pal@.len() as int);
    }
    None
}

/// Replace calibration colors with device colors by exact match.
///
/// Fails, touching nothing, when the two lists differ in length.
/// Otherwise each pixel exactly equal to `original_colors[k]` (first
/// match wins) is overwritten with `replacement_colors[k]`; a pixel
/// matching no entry is left byte-identical, and the count of such
/// pixels is returned as a diagnostic.
pub fn replace_colors(
    buffer: &mut Vec<u8>,
    original_colors: &[Rgb],
    replacement_colors: &[Rgb],
) -> (r: Result<usize, DitherError>)
    requires
        old(buffer)@.len() % 3 == 0,
    ensures
        final(buffer)@.len() == old(buffer)@.len(),
        original_colors@.len() != replacement_colors@.len() ==> r == Err::<usize, DitherError>(
            DitherError::ColorCountMismatch,
        ) && final(buffer)@ =~= old(buffer)@,
        original_colors@.len() == replacement_colors@.len() ==> {
            &&& r matches Ok(n) && n as int == spec_mismatches(
                old(buffer)@,
                original_colors@,
                old(buffer)@.len() as int / 3,
            )
            &&& forall|p: int|
                #![trigger buf_pixel(old(buffer)@, 3 * p)]
                0 <= p < old(buffer)@.len() as int / 3 ==> if first_match(
                    original_colors@,
                    buf_pixel(old(buffer)@, 3 * p),
                ) >= 0 {
                    pixel_is(
                        final(buffer)@,
                        3 * p,
                        replacement_colors@[first_match(
                            original_colors@,
                            buf_pixel(old(buffer)@, 3 * p),
                        )],
                    )
                } else {
                    pixel_same(final(buffer)@, old(buffer)@, 3 * p)
                }
        },
{
    if original_colors.len() != replacement_colors.len() {
        return Err(DitherError::ColorCountMismatch);
    }
    let pixels = buffer.len() / 3;
    let mut mismatches: usize = 0;
    let mut p: usize = 0;
    while p < pixels
        invariant
            buffer@.len() == old(buffer)@.len(),
            old(buffer)@.len() % 3 == 0,
            pixels == old(buffer)@.len() as int / 3,
            original_colors@.len() == replacement_colors@.len(),
            0 <= p <= pixels,
            mismatches as int == spec_mismatches(old(buffer)@, original_colors@, p as int),
            mismatches <= p,
            forall|j: int| 3 * p <= j < buffer@.len() ==> buffer@[j] == old(buffer)@[j],
            forall|q: int|
                #![trigger buf_pixel(old(buffer)@, 3 * q)]
                0 <= q < p ==> if first_match(original_colors@, buf_pixel(old(buffer)@, 3 * q))
                    >= 0 {
                    pixel_is(
                        buffer@,
                        3 * q,
                        replacement_colors@[first_match(
                            original_colors@,
                            buf_pixel(old(buffer)@, 3 * q),
                        )],
                    )
                } else {
                    pixel_same(buffer@, old(buffer)@, 3 * q)
                },
        decreases pixels - p,
    {
        proof {
            assert(buffer.len() == buffer@.len());
        }
        let base = p * 3;
        let c0 = buffer[base];
        let c1 = buffer[base + 1];
        let c2 = buffer[base + 2];
        proof {
            assert((Rgb([c0, c1, c2])).0 =~= buf_pixel(old(buffer)@, 3 * (p as int)).0);
        }
        match find_exact(original_colors, c0, c1, c2) {
            Some(k) => {
                let nc = replacement_colors[k];
                buffer.set(base, nc.0[0]);
                buffer.set(base + 1, nc.0[1]);
                buffer.set(base + 2, nc.0[2]);
            },
            None => {
                mismatches = mismatches + 1;
            },
        }
        p = p + 1;
    }
    Ok(mismatches)
}

/// Well-formed options for a buffer pass: ordered dithering needs a
/// non-degenerate matrix size.
pub open spec fn options_wf(options: DitherOptions) -> bool {
    match options.algorithm {
        DitheringAlgorithm::Ordered { width: bw, height: bh } => bw >= 1 && bh >= 1,
        _ => true,
    }
}

/// Ordered-dither pass: each pixel independently takes the nearest
/// palette color of its threshold-adjusted value.
#[verifier::rlimit(100)]
#[verifier::spinoff_prover]
fn ordered_pass(buffer: &mut Vec<u8>, width: usize, height: usize, palette: &[Rgb], bw: u8, bh: u8)
    requires
        old(buffer)@.len() == width * height * 3,
        palette@.len() > 0,
        bw >= 1,
        bh >= 1,
    ensures
        final(buffer)@.len() == old(buffer)@.len(),
        forall|p: int|
            #![trigger buf_pixel(old(buffer)@, 3 * p)]
            0 <= p < width * height ==> pixel_is(
                final(buffer)@,
                3 * p,
                spec_ordered_result(
                    palette@,
                    bw as int,
                    bh as int,
                    THRESHOLD_STRENGTH as int,
                    buf_pixel(old(buffer)@, 3 * p),
                    p % (width as int),
                    p / (width as int),
                ),
            ) && pixel_in_palette(final(buffer)@, 3 * p, palette@),
{
    proof {
        assert(buffer.len() == buffer@.len());
        assert(width * height <= width * height * 3) by (nonlinear_arith);
        assert(width * height >= 0) by (nonlinear_arith)
            requires
                width >= 0,
                height >= 0,
        ;
    }
    let tm = create_bayer_matrix(bw, bh);
    let ghost mw = clamp8(bw as int);
    let ghost mh = clamp8(bh as int);
    proof {
        assert forall|yy: int, xx: int| 0 <= yy < mh && 0 <= xx < mw implies 0
            <= #[trigger] spec_bayer_cell(mw, mh, yy, xx) < 64 by {
            lemma_bayer_cell_bounds(mw, mh, yy, xx);
        }
    }
    let count = width * height;
    let mut p: usize = 0;
    while p < count
        invariant
            buffer@.len() == old(buffer)@.len(),
            old(buffer)@.len() == width * height * 3,
            palette@.len() > 0,
            bw >= 1,
            bh >= 1,
            count == width * height,
            0 <= p <= count,
            mw == clamp8(bw as int),
            mh == clamp8(bh as int),
            1 <= mw <= 8,
            1 <= mh <= 8,
            tm@.len() == mh,
            forall|yy: int| 0 <= yy < mh ==> (#[trigger] tm@[yy])@.len() == mw,
            forall|yy: int, xx: int|
                0 <= yy < mh && 0 <= xx < mw ==> #[trigger] tm@[yy]@[xx] as int == spec_bayer_cell(
                    mw,
                    mh,
                    yy,
                    xx,
                ),
            forall|yy: int, xx: int|
                0 <= yy < mh && 0 <= xx < mw ==> #[trigger] tm@[yy]@[xx] < 64,
            forall|j: int| 3 * p <= j < buffer@.len() ==> buffer@[j] == old(buffer)@[j],
            forall|q: int|
                #![trigger buf_pixel(old(buffer)@, 3 * q)]
                0 <= q < p ==> pixel_is(
                    buffer@,
                    3 * q,
                    spec_ordered_result(
                        palette@,
                        bw as int,
                        bh as int,
                        THRESHOLD_STRENGTH as int,
                        buf_pixel(old(buffer)@, 3 * q),
                        q % (width as int),
                        q / (width as int),
                    ),
                ) && pixel_in_palette(buffer@, 3 * q, palette@),
        decreases count - p,
    {
        proof {
            assert(buffer.len() == buffer@.len());
            assert(width > 0) by (nonlinear_arith)
                requires
                    p < count,
                    count == width * height,
                    p >= 0,
            ;
            assert(3 * p + 2 < width * height * 3) by (nonlinear_arith)
                requires
                    0 <= p < width * height,
            ;
        }
        let base = p * 3;
        let x = p % width;
        let y = p / width;
        let oldp = [buffer[base], buffer[base + 1], buffer[base + 2]];
        let d = apply_ordered_dither(oldp, x, y, &tm, THRESHOLD_STRENGTH);
        let c = Rgb([d[0], d[1], d[2]]);
        let r = find_closest_color(&c, palette);
        let (pi, np) = r.unwrap();
        let ghost prevb = buffer@;
        buffer.set(base, np.0[0]);
        buffer.set(base + 1, np.0[1]);
        buffer.set(base + 2, np.0[2]);
        proof {
            let ghost oc = buf_pixel(old(buffer)@, 3 * (p as int));
            assert(oldp@ =~= oc.0@);
            assert(oldp == oc.0);
            let adj = ordered_adjust(
                spec_bayer_cell(mw, mh, (y as int) % mh, (x as int) % mw),
                mw,
                mh,
                THRESHOLD_STRENGTH as int,
            );
            assert(c.0 =~= (Rgb(
                [clamp255(oc.0[0], adj), clamp255(oc.0[1], adj), clamp255(oc.0[2], adj)],
            )).0);
            assert(c == (Rgb(
                [clamp255(oc.0[0], adj), clamp255(oc.0[1], adj), clamp255(oc.0[2], adj)],
            )));
            assert(np == spec_ordered_result(
                palette@,
                bw as int,
                bh as int,
                THRESHOLD_STRENGTH as int,
                oc,
                p as int % (width as int),
                p as int / (width as int),
            ));
            assert(pixel_is(buffer@, 3 * (p as int), palette@[pi as int]));
            assert(pixel_in_palette(buffer@, 3 * (p as int), palette@));
            assert forall|q: int|
                #![trigger buf_pixel(old(buffer)@, 3 * q)]
                0 <= q < p implies pixel_is(
                buffer@,
                3 * q,
                spec_ordered_result(
                    palette@,
                    bw as int,
                    bh as int,
                    THRESHOLD_STRENGTH as int,
                    buf_pixel(old(buffer)@, 3 * q),
                    q % (width as int),
                    q / (width as int),
                ),
            ) && pixel_in_palette(buffer@, 3 * q, palette@) by {
                assert(pixel_is(
                    prevb,
                    3 * q,
                    spec_ordered_result(
                        palette@,
                        bw as int,
                        bh as int,
                        THRESHOLD_STRENGTH as int,
                        buf_pixel(old(buffer)@, 3 * q),
                        q % (width as int),
                        q / (width as int),
                    ),
                ));
                let kk = choose|kk: int|
                    0 <= kk < palette@.len() && pixel_is(prevb, 3 * q, #[trigger] palette@[kk]);
                assert(pixel_is(buffer@, 3 * q, palette@[kk]));
            }
        }
        p = p + 1;
    }
}

/// Random-dither pass: every output channel becomes 0 or 255; in
/// black-and-white mode the three channels of each pixel agree.
#[verifier::rlimit(100)]
#[verifier::spinoff_prover]
fn random_pass(buffer: &mut Vec<u8>, width: usize, height: usize, mode: RandomMode)
    requires
        old(buffer)@.len() == width * height * 3,
    ensures
        final(buffer)@.len() == old(buffer)@.len(),
        forall|j: int|
            0 <= j < final(buffer)@.len() ==> final(buffer)@[j] == 0 || #[trigger] final(buffer)@[j] == 255,
        mode == RandomMode::BlackAndWhite ==> forall|p: int|
            0 <= p < width * height ==> #[trigger] final(buffer)@[3 * p] == final(buffer)@[3 * p
                + 1],
        mode == RandomMode::BlackAndWhite ==> forall|p: int|
            0 <= p < width * height ==> #[trigger] final(buffer)@[3 * p + 1] == final(buffer)@[3
                * p + 2],
{
    proof {
        assert(buffer.len() == buffer@.len());
    }
    let count = width * height;
    let mut p: usize = 0;
    while p < count
        invariant
            buffer@.len() == old(buffer)@.len(),
            old(buffer)@.len() == width * height * 3,
            count == width * height,
            0 <= p <= count,
            forall|j: int| 3 * p <= j < buffer@.len() ==> buffer@[j] == old(buffer)@[j],
            forall|j: int| 0 <= j < 3 * p ==> buffer@[j] == 0 || #[trigger] buffer@[j] == 255,
            mode == RandomMode::BlackAndWhite ==> forall|q: int|
                0 <= q < p ==> #[trigger] buffer@[3 * q] == buffer@[3 * q + 1],
            mode == RandomMode::BlackAndWhite ==> forall|q: int|
                0 <= q < p ==> #[trigger] buffer@[3 * q + 1] == buffer@[3 * q + 2],
        decreases count - p,
    {
        proof {
            assert(buffer.len() == buffer@.len());
            assert(3 * p + 2 < width * height * 3) by (nonlinear_arith)
                requires
                    0 <= p < width * height,
            ;
        }
        let base = p * 3;
        let oldp = [buffer[base], buffer[base + 1], buffer[base + 2]];
        let d = apply_random_dither(oldp, mode);
        let ghost prevb = buffer@;
        buffer.set(base, d[0]);
        buffer.set(base + 1, d[1]);
        buffer.set(base + 2, d[2]);
        proof {
            assert(buffer@[3 * (p as int)] == d[0] && buffer@[3 * (p as int) + 1] == d[1]
                && buffer@[3 * (p as int) + 2] == d[2]);
            assert forall|j: int| 0 <= j < 3 * (p + 1) implies buffer@[j] == 0 || #[trigger] buffer@[j]
                == 255 by {
                if j < 3 * p {
                    assert(buffer@[j] == prevb[j]);
                    assert(prevb[j] == 0 || prevb[j] == 255);
                }
            }
            if mode == RandomMode::BlackAndWhite {
                assert forall|q: int| 0 <= q < p + 1 implies #[trigger] buffer@[3 * q] == buffer@[3
                    * q + 1] by {
                    if q < p {
                        assert(buffer@[3 * q] == prevb[3 * q] && buffer@[3 * q + 1] == prevb[3 * q
                            + 1]);
                        assert(prevb[3 * q] == prevb[3 * q + 1]);
                    }
                }
                assert forall|q: int| 0 <= q < p + 1 implies #[trigger] buffer@[3 * q + 1]
                    == buffer@[3 * q + 2] by {
                    if q < p {
                        assert(buffer@[3 * q + 1] == prevb[3 * q + 1] && buffer@[3 * q + 2]
                            == prevb[3 * q + 2]);
                        assert(prevb[3 * q + 1] == prevb[3 * q + 2]);
                    }
                }
            }
        }
        p = p + 1;
    }
}

/// Quantization-only pass: each pixel independently takes the nearest
/// palette color of its value.
#[verifier::rlimit(100)]
#[verifier::spinoff_prover]
fn quantize_pass(buffer: &mut Vec<u8>, width: usize, height: usize, palette: &[Rgb])
    requires
        old(buffer)@.len() == width * height * 3,
        palette@.len() > 0,
    ensures
        final(buffer)@.len() == old(buffer)@.len(),
        forall|p: int|
            #![trigger buf_pixel(old(buffer)@, 3 * p)]
            0 <= p < width * height ==> pixel_is(
                final(buffer)@,
                3 * p,
                quantized_pixel(palette@, buf_pixel(old(buffer)@, 3 * p)),
            ) && pixel_in_palette(final(buffer)@, 3 * p, palette@),
{
    proof {
        assert(buffer.len() == buffer@.len());
    }
    let count = width * height;
    let mut p: usize = 0;
    while p < count
        invariant
            buffer@.len() == old(buffer)@.len(),
            old(buffer)@.len() == width * height * 3,
            palette@.len() > 0,
            count == width * height,
            0 <= p <= count,
            forall|j: int| 3 * p <= j < buffer@.len() ==> buffer@[j] == old(buffer)@[j],
            forall|q: int|
                #![trigger buf_pixel(old(buffer)@, 3 * q)]
                0 <= q < p ==> pixel_is(
                    buffer@,
                    3 * q,
                    quantized_pixel(palette@, buf_pixel(old(buffer)@, 3 * q)),
                ) && pixel_in_palette(buffer@, 3 * q, palette@),
        decreases count - p,
    {
        proof {
            assert(buffer.len() == buffer@.len());
            assert(3 * p + 2 < width * height * 3) by (nonlinear_arith)
                requires
                    0 <= p < width * height,
            ;
        }
        let base = p * 3;
        let oldc = Rgb([buffer[base], buffer[base + 1], buffer[base + 2]]);
        proof {
            assert(oldc.0 =~= buf_pixel(old(buffer)@, 3 * (p as int)).0);
            assert(oldc == buf_pixel(old(buffer)@, 3 * (p as int)));
        }
        let r = find_closest_color(&oldc, palette);
        let (pi, np) = r.unwrap();
        let ghost prevb = buffer@;
        buffer.set(base, np.0[0]);
        buffer.set(base + 1, np.0[1]);
        buffer.set(base + 2, np.0[2]);
        proof {
            assert(np == quantized_pixel(palette@, buf_pixel(old(buffer)@, 3 * (p as int))));
            assert(pixel_is(buffer@, 3 * (p as int), palette@[pi as int]));
            assert(pixel_is(
                buffer@,
                3 * (p as int),
                quantized_pixel(palette@, buf_pixel(old(buffer)@, 3 * (p as int))),
            ));
            assert(pixel_in_palette(buffer@, 3 * (p as int), palette@));
            assert forall|q: int|
                #![trigger buf_pixel(old(buffer)@, 3 * q)]
                0 <= q < p + 1 implies pixel_is(
                buffer@,
                3 * q,
                quantized_pixel(palette@, buf_pixel(old(buffer)@, 3 * q)),
            ) && pixel_in_palette(buffer@, 3 * q, palette@) by {
                if q < p {
                    assert(buffer@[3 * q] == prevb[3 * q] && buffer@[3 * q + 1] == prevb[3 * q + 1]
                        && buffer@[3 * q + 2] == prevb[3 * q + 2]);
                    assert(pixel_is(
                        prevb,
                        3 * q,
                        quantized_pixel(palette@, buf_pixel(old(buffer)@, 3 * q)),
                    ));
                    let kk = choose|kk: int|
                        0 <= kk < palette@.len() && pixel_is(prevb, 3 * q, #[trigger] palette@[kk]);
                    assert(pixel_is(buffer@, 3 * q, palette@[kk]));
                } else {
                    assert(q == p);
                    assert(pixel_is(
                        buffer@,
                        3 * q,
                        quantized_pixel(palette@, buf_pixel(old(buffer)@, 3 * q)),
                    ));
                    assert(pixel_is(buffer@, 3 * q, palette@[pi as int]));
                }
            }
        }
        p = p + 1;
    }
}

/// Apply dithering to a pixel buffer according to the given options.
///
/// Error diffusion produces exactly the scan that
/// `spec_error_diffusion` describes; ordered dithering and plain
/// quantization map each pixel independently to the nearest palette
/// color of its (adjusted) value; random dithering makes every channel
/// 0 or 255. After every palette-directed pass each pixel holds a
/// palette color.
pub fn dither_buffer(buffer: &mut Vec<u8>, width: usize, height: usize, options: &DitherOptions)
    requires
        old(buffer)@.len() == width * height * 3,
        options.palette.colors@.len() > 0,
        options_wf(*options),
    ensures
        final(buffer)@.len() == old(buffer)@.len(),
        options.algorithm matches DitheringAlgorithm::ErrorDiffusion(k) ==> final(buffer)@
            =~= spec_error_diffusion(
            old(buffer)@,
            width as int,
            height as int,
            options.serpentine,
            spec_kernel(k),
            options.palette.colors@,
            height as int,
        ) && (forall|x: int, y: int|
            0 <= x < width && 0 <= y < height ==> pixel_in_palette(
                final(buffer)@,
                pixel_base(width as int, x, y),
                options.palette.colors@,
            )),
        options.algorithm matches DitheringAlgorithm::Ordered { width: bw, height: bh }
            ==> forall|p: int|
            #![trigger buf_pixel(old(buffer)@, 3 * p)]
            0 <= p < width * height ==> pixel_is(
                final(buffer)@,
                3 * p,
                spec_ordered_result(
                    options.palette.colors@,
                    bw as int,
                    bh as int,
                    THRESHOLD_STRENGTH as int,
                    buf_pixel(old(buffer)@, 3 * p),
                    p % (width as int),
                    p / (width as int),
                ),
            ) && pixel_in_palette(final(buffer)@, 3 * p, options.palette.colors@),
        options.algorithm matches DitheringAlgorithm::Random(mode) ==> (forall|j: int|
            0 <= j < final(buffer)@.len() ==> final(buffer)@[j] == 0
                || #[trigger] final(buffer)@[j] == 255) && (mode == RandomMode::BlackAndWhite
            ==> forall|p: int|
            0 <= p < width * height ==> #[trigger] final(buffer)@[3 * p] == final(buffer)@[3 * p
                + 1]) && (mode == RandomMode::BlackAndWhite ==> forall|p: int|
            0 <= p < width * height ==> #[trigger] final(buffer)@[3 * p + 1] == final(buffer)@[3
                * p + 2]),
        options.algorithm is QuantizationOnly ==> forall|p: int|
            #![trigger buf_pixel(old(buffer)@, 3 * p)]
            0 <= p < width * height ==> pixel_is(
                final(buffer)@,
                3 * p,
                quantized_pixel(options.palette.colors@, buf_pixel(old(buffer)@, 3 * p)),
            ) && pixel_in_palette(final(buffer)@, 3 * p, options.palette.colors@),
{
    match &options.algorithm {
        DitheringAlgorithm::ErrorDiffusion(k) => {
            apply_error_diffusion(
                buffer,
                width,
                height,
                options.palette.colors.as_slice(),
                *k,
                options.serpentine,
            );
        },
        DitheringAlgorithm::Ordered { width: bw, height: bh } => {
            ordered_pass(buffer, width, height, options.palette.colors.as_slice(), *bw, *bh);
        },
        DitheringAlgorithm::Random(mode) => {
            random_pass(buffer, width, height, *mode);
        },
        DitheringAlgorithm::QuantizationOnly => {
            quantize_pass(buffer, width, height, options.palette.colors.as_slice());
        },
    }
}

} // verus!
