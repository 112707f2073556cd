//! The pixel-level dithering algorithms.

pub mod error_diffusion;
pub mod ordered;
pub mod random;
