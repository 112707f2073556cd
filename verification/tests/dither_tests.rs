//! Tests for the kernels, the algorithms, and the engine.

use epd_dither::color::Rgb;
use epd_dither::dither::algorithms::error_diffusion::apply_error_diffusion;
use epd_dither::dither::algorithms::ordered::{apply_ordered_dither, create_bayer_matrix};
use epd_dither::dither::algorithms::random::{
    apply_random_dither, random_dither_bw, random_dither_rgb,
};
use epd_dither::dither::engine::{dither_buffer, replace_colors, THRESHOLD_STRENGTH};
use epd_dither::dither::matrices::get_diffusion_matrix;
use epd_dither::dither::{DitherOptions, DitheringAlgorithm, ErrorDiffusionKernel, RandomMode};
use epd_dither::Palette;

fn all_kernels() -> Vec<ErrorDiffusionKernel> {
    vec![
        ErrorDiffusionKernel::FloydSteinberg,
        ErrorDiffusionKernel::FalseFloydSteinberg,
        ErrorDiffusionKernel::Jarvis,
        ErrorDiffusionKernel::Stucki,
        ErrorDiffusionKernel::Burkes,
        ErrorDiffusionKernel::Sierra3,
        ErrorDiffusionKernel::Sierra2,
        ErrorDiffusionKernel::Sierra2_4A,
    ]
}

#[test]
fn test_matrix_factors_sum() {
    // All factors should sum to 1.0 (or very close due to floating point)
    for kernel in all_kernels() {
        let matrix = get_diffusion_matrix(kernel);
        let sum: f64 = matrix
            .iter()
            .map(|e| e.num as f64 / e.den as f64)
            .sum();
        assert!(
            (sum - 1.0).abs() < 0.0001,
            "Matrix factors should sum to 1.0, got {}",
            sum
        );
    }
}

#[test]
fn test_matrix_offsets_point_forward() {
    for kernel in all_kernels() {
        for e in get_diffusion_matrix(kernel) {
            assert!(e.dy > 0 || (e.dy == 0 && e.dx > 0));
            assert!(e.num > 0 && e.num <= e.den);
        }
    }
}

#[test]
fn test_error_diffusion_basic() {
    // Create a simple 2x2 image with gray pixels
    let mut buffer = vec![128, 128, 128, 128, 128, 128, 128, 128, 128, 128, 128, 128];

    // Black and white palette
    let palette = vec![Rgb::new(0, 0, 0), Rgb::new(255, 255, 255)];

    apply_error_diffusion(
        &mut buffer,
        2,
        2,
        &palette,
        ErrorDiffusionKernel::FloydSteinberg,
        false,
    );

    // All pixels should now be either 0 or 255
    for &val in &buffer {
        assert!(val == 0 || val == 255, "Pixel value should be 0 or 255, got {}", val);
    }
}

#[test]
fn test_error_diffusion_mid_gray_2x2_exact() {
    // A uniform 2x2 mid-gray image under Floyd-Steinberg with a
    // black/white palette: 128 quantizes to white (255 is nearer by
    // one), the -127 error cascades right and down with weights
    // 7/3/5/1 over 16, and the last pixel absorbs what is left.
    let mut buffer = vec![128u8; 12];
    let palette = vec![Rgb::new(0, 0, 0), Rgb::new(255, 255, 255)];

    apply_error_diffusion(
        &mut buffer,
        2,
        2,
        &palette,
        ErrorDiffusionKernel::FloydSteinberg,
        false,
    );

    assert_eq!(buffer, vec![255, 255, 255, 0, 0, 0, 0, 0, 0, 255, 255, 255]);
}

#[test]
fn test_serpentine_mirrors_diffusion_direction() {
    // Row 0 is black and sheds no error. On row 1 (odd), the first
    // visited pixel under serpentine scanning is the right one; its
    // (+1, 0) kernel entry is mirrored and lands on the pixel to its
    // left, darkening it to black. A forward scan does the opposite.
    let palette = vec![Rgb::new(0, 0, 0), Rgb::new(255, 255, 255)];
    let start = vec![0, 0, 0, 0, 0, 0, 128, 128, 128, 128, 128, 128];

    let mut serp = start.clone();
    apply_error_diffusion(&mut serp, 2, 2, &palette, ErrorDiffusionKernel::FloydSteinberg, true);
    assert_eq!(serp, vec![0, 0, 0, 0, 0, 0, 0, 0, 0, 255, 255, 255]);

    let mut forward = start.clone();
    apply_error_diffusion(
        &mut forward,
        2,
        2,
        &palette,
        ErrorDiffusionKernel::FloydSteinberg,
        false,
    );
    assert_eq!(forward, vec![0, 0, 0, 0, 0, 0, 255, 255, 255, 0, 0, 0]);
}

#[test]
fn test_bayer_matrix_generation() {
    // Test 4x4 matrix
    let matrix = create_bayer_matrix(4, 4);
    assert_eq!(matrix.len(), 4);
    assert_eq!(matrix[0].len(), 4);

    // Test that all values are unique and in range
    let mut flat: Vec<_> = matrix.iter().flat_map(|row| row.iter().copied()).collect();
    flat.sort_unstable();
    assert_eq!(flat, vec![0, 1, 2, 3, 4, 5, 6, 7, 8, 9, 10, 11, 12, 13, 14, 15]);

    // Test 8x8 matrix
    let matrix_8x8 = create_bayer_matrix(8, 8);
    assert_eq!(matrix_8x8.len(), 8);
    assert_eq!(matrix_8x8[0].len(), 8);
}

#[test]
fn test_bayer_matrix_8x8_is_base_pattern() {
    // The full-size request returns the canonical base pattern
    // verbatim, a permutation of 0..=63.
    let m = create_bayer_matrix(8, 8);
    assert_eq!(m[0], vec![0, 48, 12, 60, 3, 51, 15, 63]);
    assert_eq!(m[1], vec![32, 16, 44, 28, 35, 19, 47, 31]);
    assert_eq!(m[2], vec![8, 56, 4, 52, 11, 59, 7, 55]);
    assert_eq!(m[3], vec![40, 24, 36, 20, 43, 27, 39, 23]);
    assert_eq!(m[4], vec![2, 50, 14, 62, 1, 49, 13, 61]);
    assert_eq!(m[5], vec![34, 18, 46, 30, 33, 17, 45, 29]);
    assert_eq!(m[6], vec![10, 58, 6, 54, 9, 57, 5, 53]);
    assert_eq!(m[7], vec![42, 26, 38, 22, 41, 25, 37, 21]);

    let mut flat: Vec<usize> = m.iter().flat_map(|row| row.iter().copied()).collect();
    flat.sort_unstable();
    assert_eq!(flat, (0..64).collect::<Vec<usize>>());
}

#[test]
fn test_bayer_matrix_wide_blocks_are_dense() {
    // Re-ranked blocks of every size hold each rank exactly once.
    for (w, h) in [(8u8, 4u8), (8, 7), (5, 8), (3, 5)] {
        let m = create_bayer_matrix(w, h);
        let mut flat: Vec<usize> = m.iter().flat_map(|row| row.iter().copied()).collect();
        flat.sort_unstable();
        assert_eq!(flat, (0..w as usize * h as usize).collect::<Vec<usize>>());
    }
}

#[test]
fn test_bayer_matrix_2x2_ranks() {
    // Top-left 2x2 block of the base pattern is [0, 48; 32, 16]; its
    // ranks are [0, 3; 2, 1].
    let m = create_bayer_matrix(2, 2);
    assert_eq!(m, vec![vec![0, 3], vec![2, 1]]);
}

#[test]
fn test_apply_ordered_dither() {
    let matrix = create_bayer_matrix(4, 4);
    let pixel = [128, 128, 128];

    // Just verify it doesn't panic and produces valid RGB values
    let result = apply_ordered_dither(pixel, 0, 0, &matrix, 64);
    assert!(result[0] <= 255);
    assert!(result[1] <= 255);
    assert!(result[2] <= 255);
}

#[test]
fn test_apply_ordered_dither_exact_adjustment() {
    // Cell (0, 1) of the 4x4 matrix has rank 12 (base value 48): the
    // adjustment is 12 * 64 / 16 = 48, clamped at 255.
    let matrix = create_bayer_matrix(4, 4);
    let result = apply_ordered_dither([100, 200, 250], 1, 0, &matrix, THRESHOLD_STRENGTH);
    assert_eq!(result, [148, 248, 255]);
}

#[test]
fn test_random_dither_rgb() {
    let pixel = [128, 128, 128];
    let result = random_dither_rgb(pixel);

    // Result should be either 0 or 255 for each channel
    for &val in &result {
        assert!(val == 0 || val == 255);
    }
}

#[test]
fn test_random_dither_bw() {
    let pixel = [128, 128, 128];
    let result = random_dither_bw(pixel);

    // Result should be either all black or all white
    assert!(
        result == [0, 0, 0] || result == [255, 255, 255],
        "Got {:?}",
        result
    );
}

#[test]
fn test_random_dither_extremes() {
    // Pure white is never below a draw, so it stays white in both
    // modes; pure black may land either way depending on the draw.
    assert_eq!(apply_random_dither([255, 255, 255], RandomMode::Rgb), [255, 255, 255]);
    assert_eq!(
        apply_random_dither([255, 255, 255], RandomMode::BlackAndWhite),
        [255, 255, 255]
    );
    let rgb = apply_random_dither([255, 7, 255], RandomMode::Rgb);
    assert_eq!(rgb[0], 255);
    assert_eq!(rgb[2], 255);
    let bw = apply_random_dither([0, 0, 0], RandomMode::BlackAndWhite);
    assert!(bw == [0, 0, 0] || bw == [255, 255, 255]);
}

#[test]
fn test_quantization_only() {
    let mut buffer = vec![
        100, 100, 100, // (0,0)
        200, 200, 200, // (1,0)
        50, 50, 50, // (0,1)
        150, 150, 150, // (1,1)
    ];

    let palette = Palette::new("test", vec![Rgb::new(0, 0, 0), Rgb::new(255, 255, 255)]);

    let options = DitherOptions {
        algorithm: DitheringAlgorithm::QuantizationOnly,
        palette,
        serpentine: false,
    };

    dither_buffer(&mut buffer, 2, 2, &options);

    // All pixels should be either black or white
    for pixel in buffer.chunks(3) {
        assert!(
            (pixel[0] == 0 && pixel[1] == 0 && pixel[2] == 0)
                || (pixel[0] == 255 && pixel[1] == 255 && pixel[2] == 255)
        );
    }
    assert_eq!(
        buffer,
        vec![0, 0, 0, 255, 255, 255, 0, 0, 0, 255, 255, 255]
    );
}

#[test]
fn test_replace_colors_exact_match() {
    // Black and white pixels are remapped to device colors; the gray
    // pixel matches nothing, stays byte-identical and is counted.
    let mut buffer = vec![0, 0, 0, 255, 255, 255, 9, 9, 9];
    let original = vec![Rgb::new(0, 0, 0), Rgb::new(255, 255, 255)];
    let replacement = vec![Rgb::new(20, 20, 20), Rgb::new(230, 230, 230)];

    let mismatches = replace_colors(&mut buffer, &original, &replacement).unwrap();
    assert_eq!(buffer, vec![20, 20, 20, 230, 230, 230, 9, 9, 9]);
    assert_eq!(mismatches, 1);
}

#[test]
fn test_replace_colors_first_match_wins() {
    // With a repeated original color, the first index decides the
    // replacement.
    let mut buffer = vec![7, 7, 7];
    let original = vec![Rgb::new(7, 7, 7), Rgb::new(7, 7, 7)];
    let replacement = vec![Rgb::new(1, 1, 1), Rgb::new(2, 2, 2)];

    let mismatches = replace_colors(&mut buffer, &original, &replacement).unwrap();
    assert_eq!(buffer, vec![1, 1, 1]);
    assert_eq!(mismatches, 0);
}

#[test]
fn test_replace_colors_length_mismatch() {
    let mut buffer = vec![0, 0, 0, 255, 255, 255];
    let before = buffer.clone();
    let original = vec![Rgb::new(0, 0, 0), Rgb::new(255, 255, 255)];
    let replacement = vec![Rgb::new(20, 20, 20)];

    assert!(replace_colors(&mut buffer, &original, &replacement).is_err());
    assert_eq!(buffer, before);
}
