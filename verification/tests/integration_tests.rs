//! End-to-end dithering runs over whole pixel buffers.

use epd_dither::color::Rgb;
use epd_dither::dither::engine::dither_buffer;
use epd_dither::dither::{DitherOptions, DitheringAlgorithm, ErrorDiffusionKernel};
use epd_dither::Palette;

fn gradient_buffer(width: usize, height: usize) -> Vec<u8> {
    let mut buffer = Vec::with_capacity(width * height * 3);
    for y in 0..height {
        for x in 0..width {
            let value = ((x + y) as f32 / (width + height) as f32 * 255.0) as u8;
            buffer.push(value);
            buffer.push(value);
            buffer.push(value);
        }
    }
    buffer
}

#[test]
fn test_basic_dithering() {
    // Create a simple gradient image
    let mut buffer = gradient_buffer(100, 100);

    let palette = Palette::new("test", vec![Rgb::new(0, 0, 0), Rgb::new(255, 255, 255)]);

    let options = DitherOptions {
        algorithm: DitheringAlgorithm::ErrorDiffusion(ErrorDiffusionKernel::FloydSteinberg),
        palette,
        serpentine: false,
    };

    dither_buffer(&mut buffer, 100, 100, &options);

    // All pixels should be either black or white
    for pixel in buffer.chunks(3) {
        assert!(
            (pixel[0] == 0 && pixel[1] == 0 && pixel[2] == 0)
                || (pixel[0] == 255 && pixel[1] == 255 && pixel[2] == 255),
            "Pixel should be black or white, got {:?}",
            pixel
        );
    }
}

#[test]
fn test_all_error_diffusion_algorithms() {
    let base = vec![128u8; 10 * 10 * 3];

    let palette = Palette::new("test", vec![Rgb::new(0, 0, 0), Rgb::new(255, 255, 255)]);

    let algorithms = vec![
        ErrorDiffusionKernel::FloydSteinberg,
        ErrorDiffusionKernel::FalseFloydSteinberg,
        ErrorDiffusionKernel::Jarvis,
        ErrorDiffusionKernel::Stucki,
        ErrorDiffusionKernel::Burkes,
        ErrorDiffusionKernel::Sierra3,
        ErrorDiffusionKernel::Sierra2,
        ErrorDiffusionKernel::Sierra2_4A,
    ];

    for algo in algorithms {
        let mut buffer = base.clone();
        let options = DitherOptions {
            algorithm: DitheringAlgorithm::ErrorDiffusion(algo),
            palette: palette.clone(),
            serpentine: false,
        };

        dither_buffer(&mut buffer, 10, 10, &options);
        for &v in &buffer {
            assert!(v == 0 || v == 255);
        }
    }
}

#[test]
fn test_ordered_dithering() {
    let mut buffer = vec![128u8; 10 * 10 * 3];

    let palette = Palette::new("test", vec![Rgb::new(0, 0, 0), Rgb::new(255, 255, 255)]);

    let options = DitherOptions {
        algorithm: DitheringAlgorithm::Ordered {
            width: 4,
            height: 4,
        },
        palette,
        serpentine: false,
    };

    dither_buffer(&mut buffer, 10, 10, &options);
    for &v in &buffer {
        assert!(v == 0 || v == 255);
    }
}

#[test]
fn test_ordered_dithering_non_square_matrix() {
    // Ordered dithering over a two-color palette leaves only those
    // two colors, for any admissible matrix size.
    let mut buffer = gradient_buffer(9, 7);

    let palette = Palette::new("test", vec![Rgb::new(0, 0, 0), Rgb::new(255, 255, 255)]);

    let options = DitherOptions {
        algorithm: DitheringAlgorithm::Ordered {
            width: 3,
            height: 5,
        },
        palette,
        serpentine: false,
    };

    dither_buffer(&mut buffer, 9, 7, &options);
    for &v in &buffer {
        assert!(v == 0 || v == 255);
    }
}

#[test]
fn test_serpentine_mode() {
    let mut buffer = gradient_buffer(10, 10);

    let palette = Palette::new("test", vec![Rgb::new(0, 0, 0), Rgb::new(255, 255, 255)]);

    let options = DitherOptions {
        algorithm: DitheringAlgorithm::ErrorDiffusion(ErrorDiffusionKernel::FloydSteinberg),
        palette,
        serpentine: true,
    };

    dither_buffer(&mut buffer, 10, 10, &options);
    for &v in &buffer {
        assert!(v == 0 || v == 255);
    }
}

#[test]
fn test_multi_color_palette() {
    let width = 20usize;
    let height = 20usize;
    let mut buffer = Vec::with_capacity(width * height * 3);
    for y in 0..height {
        for x in 0..width {
            buffer.push((x * 255 / width) as u8);
            buffer.push((y * 255 / height) as u8);
            buffer.push(128);
        }
    }

    let palette = Palette::new(
        "test",
        vec![
            Rgb::new(0, 0, 0),
            Rgb::new(255, 0, 0),
            Rgb::new(0, 255, 0),
            Rgb::new(0, 0, 255),
            Rgb::new(255, 255, 255),
        ],
    );

    let options = DitherOptions {
        algorithm: DitheringAlgorithm::ErrorDiffusion(ErrorDiffusionKernel::FloydSteinberg),
        palette: palette.clone(),
        serpentine: false,
    };

    dither_buffer(&mut buffer, width, height, &options);

    // Verify all pixels are in the palette
    for pixel in buffer.chunks(3) {
        let color = Rgb::new(pixel[0], pixel[1], pixel[2]);
        assert!(
            palette.colors.contains(&color),
            "Pixel {:?} not in palette",
            color
        );
    }
}
