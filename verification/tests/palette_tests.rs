//! Tests for palettes, the registry, and nearest-color search.

use epd_dither::color::distance::{distance_squared, find_closest_color};
use epd_dither::color::palette::PaletteManager;
use epd_dither::color::{Palette, Rgb};

#[test]
fn test_find_closest_color() {
    let palette = vec![
        Rgb::new(0, 0, 0),       // black
        Rgb::new(255, 255, 255), // white
        Rgb::new(255, 0, 0),     // red
    ];

    // Dark gray should be closest to black
    let dark_gray = Rgb::new(50, 50, 50);
    let (idx, _) = find_closest_color(&dark_gray, &palette).unwrap();
    assert_eq!(idx, 0);

    // Light gray should be closest to white
    let light_gray = Rgb::new(200, 200, 200);
    let (idx, _) = find_closest_color(&light_gray, &palette).unwrap();
    assert_eq!(idx, 1);

    // Orange should be closest to red
    let orange = Rgb::new(255, 100, 0);
    let (idx, _) = find_closest_color(&orange, &palette).unwrap();
    assert_eq!(idx, 2);
}

#[test]
fn test_find_closest_color_empty_palette() {
    let empty: Vec<Rgb> = Vec::new();
    assert!(find_closest_color(&Rgb::new(1, 2, 3), &empty).is_none());
}

#[test]
fn test_find_closest_color_tie_takes_first() {
    // 128 is equally far from 127 and 129: the earlier entry wins.
    let palette = vec![Rgb::new(127, 127, 127), Rgb::new(129, 129, 129)];
    let (idx, c) = find_closest_color(&Rgb::new(128, 128, 128), &palette).unwrap();
    assert_eq!(idx, 0);
    assert_eq!(c, Rgb::new(127, 127, 127));
}

#[test]
fn test_distance_squared_values() {
    let black = Rgb::new(0, 0, 0);
    let white = Rgb::new(255, 255, 255);
    // 3 * 255^2 = 195075; the Euclidean distance is its square root,
    // between 441 and 442.
    assert_eq!(distance_squared(&black, &white), 195075);
    assert_eq!(distance_squared(&black, &black), 0);
    assert_eq!(
        distance_squared(&black, &white),
        distance_squared(&white, &black)
    );
}

#[test]
fn test_palette_creation() {
    let palette = Palette::from_hex_strings("test", &["#000000", "#FFFFFF"]).unwrap();
    assert_eq!(palette.name, "test");
    assert_eq!(palette.len(), 2);
    assert_eq!(palette.colors[0], Rgb::new(0, 0, 0));
    assert_eq!(palette.colors[1], Rgb::new(255, 255, 255));
}

#[test]
fn test_palette_from_hex_strings_rejects_bad_entry() {
    assert!(Palette::from_hex_strings("test", &["#000000", "#XYZZY"]).is_err());
}

#[test]
fn test_palette_default() {
    let palette = Palette::default();
    assert_eq!(palette.name, "default");
    assert_eq!(palette.len(), 2);
    assert!(!palette.is_empty());
}

#[test]
fn palette_test_palette_manager() {
    let manager = PaletteManager::new().unwrap();

    // Check that we can load default palette
    let palette = manager.get_palette("default").unwrap();
    assert_eq!(palette.name, "default");
    assert!(!palette.is_empty());

    // List palettes
    let palettes = manager.list_palettes();
    assert!(palettes.contains(&"default".to_string()));
    assert!(palettes.contains(&"spectra6".to_string()));
}

#[test]
fn integration_test_test_palette_manager() {
    let manager = PaletteManager::new().expect("Should load palettes");

    // Test loading default palette
    let default_palette = manager
        .get_palette("default")
        .expect("Default palette should exist");
    assert_eq!(default_palette.name, "default");
    assert!(!default_palette.is_empty());

    // Test loading spectra6 palette
    let spectra6 = manager
        .get_palette("spectra6")
        .expect("Spectra6 palette should exist");
    assert_eq!(spectra6.len(), 6);

    // Test device colors
    let device_colors = manager
        .get_device_colors("spectra6")
        .expect("Spectra6 device colors should exist");
    assert_eq!(device_colors.len(), 6);
}

#[test]
fn test_palette_manager_unknown_names() {
    let manager = PaletteManager::new().unwrap();
    assert!(manager.get_palette("no-such-palette").is_err());
    assert!(manager.get_device_colors("no-such-device").is_err());
}

#[test]
fn test_palette_manager_listing_order() {
    let manager = PaletteManager::new().unwrap();
    let names = manager.list_palettes();
    let mut sorted = names.clone();
    sorted.sort();
    assert_eq!(names, sorted);
    let device_names = manager.list_device_colors();
    assert!(device_names.contains(&"spectra6".to_string()));
}
