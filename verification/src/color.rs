//! Color types for 8-bit-per-channel RGB and RGBA values.

pub mod convert;
pub mod distance;
pub mod palette;

pub use palette::Palette;

use vstd::prelude::*;

verus! {

/// RGB color (8-bit per channel)
#[derive(Debug, Clone, Copy, PartialEq, Eq, Hash)]
pub struct Rgb(pub [u8; 3]);

impl Rgb {
    pub fn new(r: u8, g: u8, b: u8) -> (c: Self)
        ensures
            c.0[0] == r,
            c.0[1] == g,
            c.0[2] == b,
    {
        Self([r, g, b])
    }

    pub fn r(&self) -> (v: u8)
        ensures
            v == self.0[0],
    {
        self.0[0]
    }

    pub fn g(&self) -> (v: u8)
        ensures
            v == self.0[1],
    {
        self.0[1]
    }

    pub fn b(&self) -> (v: u8)
        ensures
            v == self.0[2],
    {
        self.0[2]
    }

    pub fn as_slice(&self) -> (s: &[u8; 3])
        ensures
            s == &self.0,
    {
        &self.0
    }
}

/// RGBA color (8-bit per channel including alpha)
#[derive(Debug, Clone, Copy, PartialEq, Eq, Hash)]
pub struct Rgba(pub [u8; 4]);

impl Rgba {
    pub fn new(r: u8, g: u8, b: u8, a: u8) -> (c: Self)
        ensures
            c.0[0] == r,
            c.0[1] == g,
            c.0[2] == b,
            c.0[3] == a,
    {
        Self([r, g, b, a])
    }

    pub fn r(&self) -> (v: u8)
        ensures
            v == self.0[0],
    {
        self.0[0]
    }

    pub fn g(&self) -> (v: u8)
        ensures
            v == self.0[1],
    {
        self.0[1]
    }

    pub fn b(&self) -> (v: u8)
        ensures
            v == self.0[2],
    {
        self.0[2]
    }

    pub fn a(&self) -> (v: u8)
        ensures
            v == self.0[3],
    {
        self.0[3]
    }

    /// Drop the alpha channel.
    pub fn to_rgb(&self) -> (c: Rgb)
        ensures
            c.0[0] == self.0[0],
            c.0[1] == self.0[1],
            c.0[2] == self.0[2],
    {
        Rgb([self.0[0], self.0[1], self.0[2]])
    }
}

impl From<Rgb> for Rgba {
    /// An opaque pixel: alpha defaults to 255.
    fn from(rgb: Rgb) -> (c: Self) {
        Rgba([rgb.0[0], rgb.0[1], rgb.0[2], 255])
    }
}

impl vstd::std_specs::convert::FromSpecImpl<Rgb> for Rgba {
    open spec fn obeys_from_spec() -> bool {
        true
    }

    open spec fn from_spec(rgb: Rgb) -> Rgba {
        (Rgba([rgb.0[0], rgb.0[1], rgb.0[2], 255]))
    }
}

} // verus!
