//! Plain data carried by device descriptions.
//!
//! A full device registry (names, panel sizes, lookup) lives with the
//! caller; these types hold the parts of a device description that the
//! engine's configuration consumes.

use vstd::prelude::*;

verus! {

/// Resolution of a display
#[derive(Debug, Clone, PartialEq, Eq, Structural)]
pub struct Resolution {
    pub width: u32,
    pub height: u32,
}

/// Recommended settings for a device
#[derive(Debug, Clone)]
pub struct RecommendedSettings {
    pub algorithm: String,
    pub serpentine: bool,
    pub fit_mode: String,
    pub scaling_algorithm: String,
}

} // verus!
