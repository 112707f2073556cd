//! Dithering configuration: algorithm selection and options.

pub mod algorithms;
pub mod engine;
pub mod matrices;

use vstd::prelude::*;

use crate::color::convert::{hex6_valid, hex_body, hex_to_rgb, rgb_matches_hex};
use crate::color::palette::default_palette;
use crate::color::{Palette, Rgb};
use crate::error::DitherError;
use crate::text::{
    count_char, dec_digits_ok, dec_value, find_char, is_space_char, lemma_find_char_at,
    lemma_split_commas_nonempty, lemma_trim_end_at, lemma_trim_start_at, parse_dec_range,
    spec_trim, split_commas,
};

verus! {

/// Dithering algorithm selection
#[derive(Debug, Clone)]
pub enum DitheringAlgorithm {
    /// Error diffusion dithering with various kernels
    ErrorDiffusion(ErrorDiffusionKernel),
    /// Ordered dithering using a Bayer threshold matrix
    Ordered { width: u8, height: u8 },
    /// Random dithering
    Random(RandomMode),
    /// Quantization only (no dithering)
    QuantizationOnly,
}

/// Error diffusion kernel types
#[derive(Debug, Clone, Copy, PartialEq, Eq, Structural)]
pub enum ErrorDiffusionKernel {
    FloydSteinberg,
    FalseFloydSteinberg,
    Jarvis,
    Stucki,
    Burkes,
    Sierra3,
    Sierra2,
    Sierra2_4A,
}

/// Random dithering mode
#[derive(Debug, Clone, Copy, PartialEq, Eq, Structural)]
pub enum RandomMode {
    Rgb,
    BlackAndWhite,
}

/// Complete dithering configuration
#[derive(Debug, Clone)]
pub struct DitherOptions {
    pub algorithm: DitheringAlgorithm,
    pub palette: Palette,
    pub serpentine: bool,
}

impl Default for DitherOptions {
    /// Floyd-Steinberg error diffusion over the black-and-white
    /// palette, left-to-right scanning.
    fn default() -> (o: Self)
        ensures
            o.algorithm == DitheringAlgorithm::ErrorDiffusion(
                ErrorDiffusionKernel::FloydSteinberg,
            ),
            o.palette.name@ == "default"@,
            o.palette.colors@ =~= default_palette(),
            !o.serpentine,
    {
        Self {
            algorithm: DitheringAlgorithm::ErrorDiffusion(ErrorDiffusionKernel::FloydSteinberg),
            palette: Palette::default(),
            serpentine: false,
        }
    }
}

/// The matrix size a `WxH` string names: exactly one `x` between two
/// decimal numbers, each from 1 to 8.
pub open spec fn spec_bayer_size(s: Seq<char>) -> Option<(int, int)> {
    if count_char(s, 'x') == 1 {
        let i = find_char(s, 'x');
        let p = s.subrange(0, i);
        let q = s.subrange(i + 1, s.len() as int);
        if dec_digits_ok(p) && dec_digits_ok(q) && 1 <= dec_value(p) <= 8 && 1 <= dec_value(q)
            <= 8 {
            Some((dec_value(p), dec_value(q)))
        } else {
            None
        }
    } else {
        None
    }
}

/// Parse a threshold matrix size of the form `WxH`, sides 1 to 8.
pub fn parse_bayer_size(size_str: &str) -> (r: Result<(u8, u8), DitherError>)
    ensures
        r is Ok <==> spec_bayer_size(size_str@) is Some,
        r matches Ok(wh) ==> spec_bayer_size(size_str@) == Some((wh.0 as int, wh.1 as int)),
        r is Err ==> r == Err::<(u8, u8), DitherError>(DitherError::InvalidBayerSize),
{
    let n = size_str.unicode_len();
    let mut first_x: usize = n;
    let mut count_x: usize = 0;
    let mut i: usize = 0;
    while i < n
        invariant
            0 <= i <= n,
            n == size_str@.len(),
            count_x <= i,
            count_x as int == count_char(size_str@.take(i as int), 'x'),
            count_x == 0 ==> first_x == n && (forall|k: int| 0 <= k < i ==> size_str@[k] != 'x'),
            count_x > 0 ==> first_x < i && size_str@[first_x as int] == 'x' && (forall|k: int|
                0 <= k < first_x ==> size_str@[k] != 'x'),
        decreases n - i,
    {
        let c = size_str.get_char(i);
        proof {
            assert(size_str@.take(i + 1).drop_last() =~= size_str@.take(i as int));
            assert(size_str@.take(i + 1).last() == size_str@[i as int]);
        }
        if c == 'x' {
            if count_x == 0 {
                first_x = i;
            }
            count_x = count_x + 1;
        }
        i = i + 1;
    }
    proof {
        assert(size_str@.take(n as int) =~= size_str@);
    }
    if count_x != 1 {
        return Err(DitherError::InvalidBayerSize);
    }
    proof {
        lemma_find_char_at(size_str@, 'x', first_x as int);
    }
    let w = match parse_dec_range(size_str, 0, first_x) {
        Some(v) => v,
        None => {
            return Err(DitherError::InvalidBayerSize);
        },
    };
    let h = match parse_dec_range(size_str, first_x + 1, n) {
        Some(v) => v,
        None => {
            return Err(DitherError::InvalidBayerSize);
        },
    };
    if w < 1 || w > 8 || h < 1 || h > 8 {
        return Err(DitherError::InvalidBayerSize);
    }
    Ok((w as u8, h as u8))
}

/// Parse a comma-separated list of hex colors into a palette's colors.
///
/// Each segment is trimmed of ASCII whitespace and must be a valid hex
/// color; the colors keep the input order.
pub fn parse_custom_palette(palette_str: &str) -> (r: Result<Vec<Rgb>, DitherError>)
    ensures
        r is Ok <==> (forall|k: int|
            0 <= k < split_commas(palette_str@).len() ==> hex6_valid(
                hex_body(spec_trim(#[trigger] split_commas(palette_str@)[k])),
            )),
        r matches Ok(v) ==> v@.len() == split_commas(palette_str@).len() && (forall|k: int|
            0 <= k < split_commas(palette_str@).len() ==> rgb_matches_hex(
                #[trigger] v@[k],
                spec_trim(split_commas(palette_str@)[k]),
            )),
        r is Err ==> r == Err::<Vec<Rgb>, DitherError>(DitherError::InvalidHexColor),
{
    let n = palette_str.unicode_len();
    let ghost segs = split_commas(palette_str@);
    proof {
        lemma_split_commas_nonempty(palette_str@);
    }
    let mut result: Vec<Rgb> = Vec::new();
    let mut start: usize = 0;
    proof {
        assert(palette_str@.subrange(0, n as int) =~= palette_str@);
        assert(segs.skip(0) =~= segs);
    }
    loop
        invariant_except_break
            n == palette_str@.len(),
            0 <= start <= n,
            segs == split_commas(palette_str@),
            result@.len() < segs.len(),
            split_commas(palette_str@.subrange(start as int, n as int)) == segs.skip(
                result@.len() as int,
            ),
            forall|j: int|
                0 <= j < result@.len() ==> hex6_valid(hex_body(spec_trim(#[trigger] segs[j]))),
            forall|j: int|
                0 <= j < result@.len() ==> rgb_matches_hex(
                    #[trigger] result@[j],
                    spec_trim(segs[j]),
                ),
        ensures
            segs == split_commas(palette_str@),
            result@.len() == segs.len(),
            forall|j: int|
                0 <= j < result@.len() ==> hex6_valid(hex_body(spec_trim(#[trigger] segs[j]))),
            forall|j: int|
                0 <= j < result@.len() ==> rgb_matches_hex(
                    #[trigger] result@[j],
                    spec_trim(segs[j]),
                ),
        decreases n - start,
    {
        let ghost kk = result@.len() as int;
        let mut e = start;
        while e < n && palette_str.get_char(e) != ','
            invariant
                start <= e <= n,
                n == palette_str@.len(),
                forall|k: int| start <= k < e ==> #[trigger] palette_str@[k] != ',',
            decreases n - e,
        {
            e = e + 1;
        }
        proof {
            let rest = palette_str@.subrange(start as int, n as int);
            assert forall|k: int| 0 <= k < e - start implies #[trigger] rest[k] != ',' by {
                assert(palette_str@[start + k] != ',');
            }
            if e < n {
                assert(rest[e - start] == palette_str@[e as int]);
            }
            lemma_find_char_at(rest, ',', e - start);
        }
        let mut a = start;
        while a < e && is_space_char(palette_str.get_char(a))
            invariant
                start <= a <= e <= n,
                n == palette_str@.len(),
                forall|k: int| start <= k < a ==> crate::text::is_space(#[trigger] palette_str@[k]),
            decreases e - a,
        {
            a = a + 1;
        }
        let mut b = e;
        while b > a && is_space_char(palette_str.get_char(b - 1))
            invariant
                a <= b <= e <= n,
                n == palette_str@.len(),
                forall|k: int| b <= k < e ==> crate::text::is_space(#[trigger] palette_str@[k]),
            decreases b,
        {
            b = b - 1;
        }
        proof {
            let rest = palette_str@.subrange(start as int, n as int);
            let seg = palette_str@.subrange(start as int, e as int);
            assert(segs[kk] == segs.skip(kk)[0]);
            if e == n {
                assert(seg =~= rest);
                assert(segs.skip(kk) == seq![rest]);
                assert(segs.skip(kk)[0] == rest);
            } else {
                assert(rest.subrange(0, e - start) =~= seg);
                assert(segs.skip(kk) == seq![rest.subrange(0, e - start)] + split_commas(
                    rest.subrange(e - start + 1, rest.len() as int),
                ));
                assert(segs.skip(kk)[0] == rest.subrange(0, e - start));
            }
            assert(segs[kk] =~= seg);
            assert(segs[kk] == seg);
            // trim the segment: leading spaces up to a, trailing from b
            assert forall|k: int| 0 <= k < a - start implies crate::text::is_space(
                #[trigger] seg[k],
            ) by {
                assert(seg[k] == palette_str@[start + k]);
            }
            if a < e {
                assert(seg[a - start] == palette_str@[a as int]);
            }
            lemma_trim_start_at(seg, a - start);
            let u = palette_str@.subrange(a as int, b as int);
            let ts = palette_str@.subrange(a as int, e as int);
            assert(seg.subrange(a - start, seg.len() as int) =~= ts);
            assert forall|k: int| b - a <= k < ts.len() implies crate::text::is_space(
                #[trigger] ts[k],
            ) by {
                assert(ts[k] == palette_str@[a + k]);
            }
            if b > a {
                assert(ts[b - a - 1] == palette_str@[b - 1]);
            }
            lemma_trim_end_at(ts, b - a);
            assert(ts.subrange(0, b - a) =~= u);
            assert(spec_trim(segs[kk]) == u);
        }
        let sub = palette_str.substring_char(a, b);
        match hex_to_rgb(sub) {
            Ok(channels) => {
                result.push(Rgb(channels));
                proof {
                    assert(rgb_matches_hex(result@[kk], spec_trim(segs[kk])));
                }
            },
            Err(_) => {
                proof {
                    assert(!hex6_valid(hex_body(spec_trim(segs[kk]))));
                }
                return Err(DitherError::InvalidHexColor);
            },
        }
        if e == n {
            proof {
                assert(segs.skip(kk) == seq![palette_str@.subrange(start as int, n as int)]);
                assert(segs.skip(kk).len() == 1);
                assert(segs.len() - kk == 1);
            }
            break ;
        }
        proof {
            let rest = palette_str@.subrange(start as int, n as int);
            let tail = rest.subrange(e - start + 1, rest.len() as int);
            let tail2 = palette_str@.subrange(e + 1, n as int);
            assert(tail =~= tail2);
            assert(segs.skip(kk) == seq![rest.subrange(0, e - start)] + split_commas(tail));
            assert(segs.skip(kk).len() == 1 + split_commas(tail).len());
            assert(segs.len() - (kk + 1) == split_commas(tail2).len());
            assert forall|j: int| 0 <= j < segs.len() - (kk + 1) implies #[trigger] segs.skip(
                kk + 1,
            )[j] == split_commas(tail2)[j] by {
                assert(segs.skip(kk + 1)[j] == segs[kk + 1 + j]);
                assert(segs.skip(kk)[j + 1] == segs[kk + 1 + j]);
                assert(segs.skip(kk)[j + 1] == (seq![rest.subrange(0, e - start)] + split_commas(
                    tail,
                ))[j + 1]);
                assert(segs.skip(kk + 1)[j] == split_commas(tail)[j]);
            }
            assert(segs.skip(kk + 1) =~~= split_commas(tail2));
            assert(segs.skip(kk + 1) == split_commas(tail2));
            lemma_split_commas_nonempty(tail2);
        }
        start = e + 1;
    }
    Ok(result)
}

} // verus!
