//! Random dithering.
//!
//! Each pixel is compared against freshly drawn uniform thresholds:
//! per channel in RGB mode, once against the channel average in
//! black-and-white mode. Nothing is promised of a random draw, so the
//! contracts state what holds of every outcome: each output channel is
//! 0 or 255, and in black-and-white mode the channels agree. One edge
//! is draw-independent: a full-white value is never below a draw, so
//! it always stays white.

use vstd::prelude::*;

use crate::dither::RandomMode;

verus! {

/// Relies on rand::thread_rng and rand::Rng::gen_range for one
/// uniform draw from 0..=255; the range is non-empty, so the call
/// returns normally. Nothing can be promised of the value drawn.
#[verifier::external_body]
fn random_threshold() -> u8 {
    rand::Rng::gen_range(&mut rand::thread_rng(), 0..=255)
}

/// The binary output of one channel: 0 when the value is below the
/// threshold, else 255.
pub open spec fn spec_threshold_channel(value: u8, threshold: u8) -> u8 {
    if value < threshold {
        0u8
    } else {
        255u8
    }
}

/// Compare one channel against a threshold: full black below it, full
/// white otherwise.
pub fn threshold_channel(value: u8, threshold: u8) -> (r: u8)
    ensures
        r == spec_threshold_channel(value, threshold),
{
    if value < threshold {
        0
    } else {
        255
    }
}

/// The truncating average of a pixel's three channels.
pub open spec fn spec_luminance(pixel: [u8; 3]) -> int {
    (pixel[0] + pixel[1] + pixel[2]) / 3
}

/// Average the three channels, rounding down.
pub fn luminance(pixel: [u8; 3]) -> (a: u8)
    ensures
        a as int == spec_luminance(pixel),
{
    ((pixel[0] as u32 + pixel[1] as u32 + pixel[2] as u32) / 3) as u8
}

/// RGB random dithering: each channel is thresholded independently
/// against its own draw, so each output channel is 0 or 255; a
/// channel at 255 stays 255 whatever is drawn.
pub fn random_dither_rgb(pixel: [u8; 3]) -> (r: [u8; 3])
    ensures
        forall|i: int| 0 <= i < 3 ==> r[i] == 0 || #[trigger] r[i] == 255,
        forall|i: int| 0 <= i < 3 && pixel[i] == 255 ==> #[trigger] r[i] == 255,
{
    [
        threshold_channel(pixel[0], random_threshold()),
        threshold_channel(pixel[1], random_threshold()),
        threshold_channel(pixel[2], random_threshold()),
    ]
}

/// Black-and-white random dithering: the channel average is compared
/// against one draw, so the output is full black or full white; a
/// full-white pixel stays white whatever is drawn.
pub fn random_dither_bw(pixel: [u8; 3]) -> (r: [u8; 3])
    ensures
        (r[0] == 0 && r[1] == 0 && r[2] == 0) || (r[0] == 255 && r[1] == 255 && r[2] == 255),
        pixel[0] == 255 && pixel[1] == 255 && pixel[2] == 255 ==> r[0] == 255 && r[1] == 255
            && r[2] == 255,
{
    let average = luminance(pixel);
    let t = random_threshold();
    let v = threshold_channel(average, t);
    [v, v, v]
}

/// Apply random dithering to a pixel.
///
/// In RGB mode every output channel is 0 or 255, and a channel at 255
/// stays 255; in black-and-white mode the output is full black or
/// full white, and a full-white pixel stays white.
pub fn apply_random_dither(pixel: [u8; 3], mode: RandomMode) -> (r: [u8; 3])
    ensures
        forall|i: int| 0 <= i < 3 ==> r[i] == 0 || #[trigger] r[i] == 255,
        mode == RandomMode::BlackAndWhite ==> r[0] == r[1] && r[1] == r[2],
        mode == RandomMode::Rgb ==> (forall|i: int|
            0 <= i < 3 && pixel[i] == 255 ==> #[trigger] r[i] == 255),
        mode == RandomMode::BlackAndWhite && pixel[0] == 255 && pixel[1] == 255 && pixel[2] == 255
            ==> r[0] == 255 && r[1] == 255 && r[2] == 255,
{
    match mode {
        RandomMode::Rgb => random_dither_rgb(pixel),
        RandomMode::BlackAndWhite => random_dither_bw(pixel),
    }
}

} // verus!
