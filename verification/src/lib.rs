//! Dithering engine for electronic-paper displays: palette-constrained
//! quantization with error-diffusion, ordered (Bayer) and random dithering.

pub mod color;
pub mod device;
pub mod dither;
pub mod error;
pub mod scaling;
pub mod text;

pub use color::{Palette, Rgb, Rgba};
pub use dither::{DitherOptions, DitheringAlgorithm, ErrorDiffusionKernel};

use vstd::prelude::*;

verus! {

} // verus!
