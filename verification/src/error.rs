//! Error type for input validation across the library.

use vstd::prelude::*;

verus! {

/// A validation failure reported to the caller. Each variant names one
/// rejected kind of input; the functions that return it state in their
/// contracts exactly which inputs produce it.
#[derive(Debug, Clone, Copy, PartialEq, Eq, Structural)]
pub enum DitherError {
    /// A hex color string is not a 3- or 6-digit hex form.
    InvalidHexColor,
    /// A palette name is not in the registry.
    PaletteNotFound,
    /// A device color set name is not in the registry.
    DeviceColorsNotFound,
    /// Original and replacement color lists differ in length.
    ColorCountMismatch,
    /// A threshold matrix size is not of the form WxH with 1..=8 sides.
    InvalidBayerSize,
    /// A fit mode name is unknown.
    InvalidFitMode,
    /// A scaling filter name is unknown.
    InvalidScalingFilter,
}

pub open spec fn spec_message(e: DitherError) -> Seq<char> {
    match e {
        DitherError::InvalidHexColor => "invalid hex color format"@,
        DitherError::PaletteNotFound => "palette not found"@,
        DitherError::DeviceColorsNotFound => "device colors not found"@,
        DitherError::ColorCountMismatch => (
        "original and replacement color arrays must have the same length"@),
        DitherError::InvalidBayerSize => (
        "bayer matrix size must be WxH with sides between 1 and 8"@),
        DitherError::InvalidFitMode => (
        "invalid fit mode; valid options: letterbox, crop, fill, contain"@),
        DitherError::InvalidScalingFilter => (
        "invalid scaling filter; valid options: nearest, triangle, catmull-rom, gaussian, lanczos3"@),
    }
}

impl DitherError {
    /// A human-readable description of the failure.
    pub fn message(&self) -> (s: String)
        ensures
            s@ == spec_message(*self),
    {
        match self {
            DitherError::InvalidHexColor => String::from_str("invalid hex color format"),
            DitherError::PaletteNotFound => String::from_str("palette not found"),
            DitherError::DeviceColorsNotFound => String::from_str("device colors not found"),
            DitherError::ColorCountMismatch => String::from_str(
                "original and replacement color arrays must have the same length",
            ),
            DitherError::InvalidBayerSize => String::from_str(
                "bayer matrix size must be WxH with sides between 1 and 8",
            ),
            DitherError::InvalidFitMode => String::from_str(
                "invalid fit mode; valid options: letterbox, crop, fill, contain",
            ),
            DitherError::InvalidScalingFilter => String::from_str(
                "invalid scaling filter; valid options: nearest, triangle, catmull-rom, gaussian, lanczos3",
            ),
        }
    }
}

} // verus!
