//! Fit modes, scaling filters, and resize geometry.
//!
//! The geometry is computed in exact integer arithmetic: aspect ratios
//! are compared by cross-multiplication, and a scaled side is the
//! rounded quotient (halves rounding down).

use vstd::prelude::*;

use crate::error::DitherError;
use crate::text::{eq_lowercase, lower_matches};

verus! {

/// Fit mode for resizing images to a target resolution
#[derive(Debug, Clone, Copy, PartialEq, Eq, Structural)]
pub enum FitMode {
    /// Add letterbox/pillarbox bars to preserve aspect ratio (default)
    Letterbox,
    /// Crop the image to fill the display while preserving aspect ratio
    Crop,
    /// Stretch the image to fill the display (may distort)
    Fill,
    /// Contain the image within bounds (letterbox without bars)
    Contain,
}

/// The fit mode a name selects, compared ASCII case-insensitively.
pub open spec fn spec_fit_mode(s: Seq<char>) -> Result<FitMode, DitherError> {
    if lower_matches(s, "letterbox"@) {
        Ok(FitMode::Letterbox)
    } else if lower_matches(s, "crop"@) {
        Ok(FitMode::Crop)
    } else if lower_matches(s, "fill"@) || lower_matches(s, "stretch"@) {
        Ok(FitMode::Fill)
    } else if lower_matches(s, "contain"@) {
        Ok(FitMode::Contain)
    } else {
        Err(DitherError::InvalidFitMode)
    }
}

impl FitMode {
    /// Parse a fit mode name.
    pub fn from_str(s: &str) -> (r: Result<Self, DitherError>)
        ensures
            r == spec_fit_mode(s@),
    {
        if eq_lowercase(s, "letterbox") {
            Ok(FitMode::Letterbox)
        } else if eq_lowercase(s, "crop") {
            Ok(FitMode::Crop)
        } else if eq_lowercase(s, "fill") || eq_lowercase(s, "stretch") {
            Ok(FitMode::Fill)
        } else if eq_lowercase(s, "contain") {
            Ok(FitMode::Contain)
        } else {
            Err(DitherError::InvalidFitMode)
        }
    }
}

/// Scaling filter algorithm
#[derive(Debug, Clone, Copy, PartialEq, Eq, Structural)]
pub enum ScalingFilter {
    /// Nearest neighbor (fastest, lowest quality)
    Nearest,
    /// Triangle/bilinear (fast, medium quality)
    Triangle,
    /// Catmull-Rom cubic (good balance)
    CatmullRom,
    /// Gaussian (smooth)
    Gaussian,
    /// Lanczos3 (best quality, recommended for photos)
    Lanczos3,
}

/// The scaling filter a name selects, compared ASCII
/// case-insensitively.
pub open spec fn spec_scaling_filter(s: Seq<char>) -> Result<ScalingFilter, DitherError> {
    if lower_matches(s, "nearest"@) {
        Ok(ScalingFilter::Nearest)
    } else if lower_matches(s, "triangle"@) || lower_matches(s, "bilinear"@) {
        Ok(ScalingFilter::Triangle)
    } else if lower_matches(s, "catmull-rom"@) || lower_matches(s, "catmullrom"@) {
        Ok(ScalingFilter::CatmullRom)
    } else if lower_matches(s, "gaussian"@) {
        Ok(ScalingFilter::Gaussian)
    } else if lower_matches(s, "lanczos3"@) || lower_matches(s, "lanczos"@) {
        Ok(ScalingFilter::Lanczos3)
    } else {
        Err(DitherError::InvalidScalingFilter)
    }
}

impl ScalingFilter {
    /// Parse a scaling filter name.
    pub fn from_str(s: &str) -> (r: Result<Self, DitherError>)
        ensures
            r == spec_scaling_filter(s@),
    {
        if eq_lowercase(s, "nearest") {
            Ok(ScalingFilter::Nearest)
        } else if eq_lowercase(s, "triangle") || eq_lowercase(s, "bilinear") {
            Ok(ScalingFilter::Triangle)
        } else if eq_lowercase(s, "catmull-rom") || eq_lowercase(s, "catmullrom") {
            Ok(ScalingFilter::CatmullRom)
        } else if eq_lowercase(s, "gaussian") {
            Ok(ScalingFilter::Gaussian)
        } else if eq_lowercase(s, "lanczos3") || eq_lowercase(s, "lanczos") {
            Ok(ScalingFilter::Lanczos3)
        } else {
            Err(DitherError::InvalidScalingFilter)
        }
    }
}

/// The quotient `num / den` rounded to the nearest whole number,
/// halves rounding down: a scaled side of exactly n + 1/2 pixels
/// becomes n, the value the original's own geometry tests expect.
pub open spec fn spec_round_half_down(num: int, den: int) -> int
    recommends
        den > 0,
{
    (2 * num + den - 1) / (2 * den)
}

pub open spec fn max0(x: int) -> int {
    if x > 0 {
        x
    } else {
        0
    }
}

/// Scaled size and placement offset for resizing a source image into a
/// target frame: (scaled width, scaled height, x offset, y offset).
///
/// Fill stretches to the target. Contain and Letterbox scale to fit
/// inside, the offset centering the result; Crop scales to cover, the
/// negative offset naming the crop origin. The source is wider than
/// the target exactly when `sw * th > tw * sh`.
pub open spec fn spec_calculate_dimensions(
    sw: int,
    sh: int,
    tw: int,
    th: int,
    mode: FitMode,
) -> (int, int, int, int) {
    match mode {
        FitMode::Fill => (tw, th, 0int, 0int),
        FitMode::Contain | FitMode::Letterbox => {
            let wider = sw * th > tw * sh;
            let w2 = if wider {
                tw
            } else {
                spec_round_half_down(th * sw, sh)
            };
            let h2 = if wider {
                spec_round_half_down(tw * sh, sw)
            } else {
                th
            };
            (w2, h2, max0((tw - w2) / 2), max0((th - h2) / 2))
        },
        FitMode::Crop => {
            let wider = sw * th > tw * sh;
            let w2 = if wider {
                spec_round_half_down(th * sw, sh)
            } else {
                tw
            };
            let h2 = if wider {
                th
            } else {
                spec_round_half_down(tw * sh, sw)
            };
            (w2, h2, -max0((w2 - tw) / 2), -max0((h2 - th) / 2))
        },
    }
}

fn round_half_down(num: u64, den: u64) -> (r: u64)
    requires
        1 <= den <= 0x40000000,
        num <= 0x40000000,
    ensures
        r as int == spec_round_half_down(num as int, den as int),
        r <= num,
{
    let r = (2 * num + den - 1) / (2 * den);
    proof {
        assert((2 * num + den - 1) / (2 * den) <= num) by (nonlinear_arith)
            requires
                1 <= den,
                0 <= num,
        ;
    }
    r
}

/// Calculate the scaled size and placement offset for resizing with
/// the given fit mode.
pub fn calculate_dimensions(
    src_width: u32,
    src_height: u32,
    target_width: u32,
    target_height: u32,
    fit_mode: FitMode,
) -> (r: (u32, u32, i32, i32))
    requires
        1 <= src_width <= 32768,
        1 <= src_height <= 32768,
        1 <= target_width <= 32768,
        1 <= target_height <= 32768,
    ensures
        ({
            let s = spec_calculate_dimensions(
                src_width as int,
                src_height as int,
                target_width as int,
                target_height as int,
                fit_mode,
            );
            r.0 as int == s.0 && r.1 as int == s.1 && r.2 as int == s.2 && r.3 as int == s.3
        }),
{
    proof {
        assert(src_width * target_height <= 0x40000000 && target_width * src_height <= 0x40000000
            && target_height * src_width <= 0x40000000 && target_width * src_height <= 0x40000000
            && target_width * src_height <= 0x40000000 && target_height * src_width
            <= 0x40000000) by (nonlinear_arith)
            requires
                1 <= src_width <= 32768,
                1 <= src_height <= 32768,
                1 <= target_width <= 32768,
                1 <= target_height <= 32768,
        ;
    }
    match fit_mode {
        FitMode::Fill => (target_width, target_height, 0i32, 0i32),
        FitMode::Contain | FitMode::Letterbox => {
            let wider = (src_width as u64) * (target_height as u64) > (target_width as u64) * (
            src_height as u64);
            let w2: u32 = if wider {
                target_width
            } else {
                round_half_down(
                    (target_height as u64) * (src_width as u64),
                    src_height as u64,
                ) as u32
            };
            let h2: u32 = if wider {
                round_half_down(
                    (target_width as u64) * (src_height as u64),
                    src_width as u64,
                ) as u32
            } else {
                target_height
            };
            let ox: i32 = if target_width >= w2 {
                ((target_width - w2) / 2) as i32
            } else {
                0
            };
            let oy: i32 = if target_height >= h2 {
                ((target_height - h2) / 2) as i32
            } else {
                0
            };
            (w2, h2, ox, oy)
        },
        FitMode::Crop => {
            let wider = (src_width as u64) * (target_height as u64) > (target_width as u64) * (
            src_height as u64);
            let w2: u32 = if wider {
                round_half_down(
                    (target_height as u64) * (src_width as u64),
                    src_height as u64,
                ) as u32
            } else {
                target_width
            };
            let h2: u32 = if wider {
                target_height
            } else {
                round_half_down(
                    (target_width as u64) * (src_height as u64),
                    src_width as u64,
                ) as u32
            };
            let ox: i32 = if w2 >= target_width {
                -(((w2 - target_width) / 2) as i32)
            } else {
                0
            };
            let oy: i32 = if h2 >= target_height {
                -(((h2 - target_height) / 2) as i32)
            } else {
                0
            };
            (w2, h2, ox, oy)
        },
    }
}

} // verus!
