//! Tests for fit modes, scaling filters, resize geometry, and the
//! configuration parsers.

use epd_dither::dither::{parse_bayer_size, parse_custom_palette};
use epd_dither::color::Rgb;
use epd_dither::scaling::{calculate_dimensions, FitMode, ScalingFilter};

#[test]
fn test_fit_mode_parsing() {
    assert_eq!(FitMode::from_str("letterbox").unwrap(), FitMode::Letterbox);
    assert_eq!(FitMode::from_str("crop").unwrap(), FitMode::Crop);
    assert_eq!(FitMode::from_str("fill").unwrap(), FitMode::Fill);
    assert_eq!(FitMode::from_str("stretch").unwrap(), FitMode::Fill);
    assert_eq!(FitMode::from_str("contain").unwrap(), FitMode::Contain);
    assert!(FitMode::from_str("invalid").is_err());
}

#[test]
fn test_fit_mode_parsing_is_case_insensitive() {
    assert_eq!(FitMode::from_str("LetterBox").unwrap(), FitMode::Letterbox);
    assert_eq!(FitMode::from_str("CROP").unwrap(), FitMode::Crop);
}

#[test]
fn test_scaling_filter_parsing() {
    assert_eq!(
        ScalingFilter::from_str("lanczos3").unwrap(),
        ScalingFilter::Lanczos3
    );
    assert_eq!(
        ScalingFilter::from_str("catmull-rom").unwrap(),
        ScalingFilter::CatmullRom
    );
    assert!(ScalingFilter::from_str("invalid").is_err());
}

#[test]
fn test_calculate_dimensions_letterbox() {
    // Wide source into square target - should letterbox top/bottom
    let (w, h, ox, oy) = calculate_dimensions(1600, 900, 800, 800, FitMode::Letterbox);
    assert_eq!(w, 800);
    assert_eq!(h, 450);
    assert_eq!(ox, 0);
    assert_eq!(oy, 175); // (800 - 450) / 2

    // Tall source into wide target - should letterbox left/right
    let (w, h, ox, oy) = calculate_dimensions(900, 1600, 800, 600, FitMode::Letterbox);
    assert_eq!(w, 337); // 600 * (900/1600)
    assert_eq!(h, 600);
    assert_eq!(ox, 231); // (800 - 337) / 2
    assert_eq!(oy, 0);
}

#[test]
fn test_calculate_dimensions_fill() {
    let (w, h, ox, oy) = calculate_dimensions(1920, 1080, 800, 480, FitMode::Fill);
    assert_eq!(w, 800);
    assert_eq!(h, 480);
    assert_eq!(ox, 0);
    assert_eq!(oy, 0);
}

#[test]
fn test_calculate_dimensions_crop() {
    // Wide source into square target: scale to cover, crop left/right.
    let (w, h, ox, oy) = calculate_dimensions(1600, 900, 800, 800, FitMode::Crop);
    assert_eq!(w, 1422); // 800 * (1600/900), half rounded down
    assert_eq!(h, 800);
    assert_eq!(ox, -311); // -(1422 - 800) / 2
    assert_eq!(oy, 0);
}

#[test]
fn test_parse_bayer_size() {
    assert_eq!(parse_bayer_size("4x4").unwrap(), (4, 4));
    assert_eq!(parse_bayer_size("8x2").unwrap(), (8, 2));
    assert_eq!(parse_bayer_size("1x1").unwrap(), (1, 1));
    assert!(parse_bayer_size("0x4").is_err());
    assert!(parse_bayer_size("9x4").is_err());
    assert!(parse_bayer_size("4x").is_err());
    assert!(parse_bayer_size("x4").is_err());
    assert!(parse_bayer_size("4x4x4").is_err());
    assert!(parse_bayer_size("44").is_err());
    assert!(parse_bayer_size("axb").is_err());
}

#[test]
fn test_parse_custom_palette() {
    let colors = parse_custom_palette("#000,#fff,#f00").unwrap();
    assert_eq!(
        colors,
        vec![Rgb::new(0, 0, 0), Rgb::new(255, 255, 255), Rgb::new(255, 0, 0)]
    );

    let colors = parse_custom_palette(" #102030 , 405060 ").unwrap();
    assert_eq!(colors, vec![Rgb::new(0x10, 0x20, 0x30), Rgb::new(0x40, 0x50, 0x60)]);

    assert!(parse_custom_palette("").is_err());
    assert!(parse_custom_palette("#000,,#fff").is_err());
    assert!(parse_custom_palette("#000,#nope").is_err());
}
