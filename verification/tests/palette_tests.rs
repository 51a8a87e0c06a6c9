use screenforge::canvas::Canvas;
use screenforge::color::Color;
use screenforge::palette::{PaletteStrategy, extract_dominant_colors, generate_palette};

#[test]
fn test_extract_returns_colors() {
    let img = Canvas::new(100, 100, Color { r: 0, g: 0, b: 0, a: 0 });
    let colors = extract_dominant_colors(&img, 4);
    assert!(!colors.is_empty());
}

#[test]
fn test_generate_palette_monochromatic() {
    let dominant = vec![Color { r: 100, g: 50, b: 150, a: 255 }];
    let palette = generate_palette(&dominant, PaletteStrategy::Monochromatic);
    assert_eq!(palette.len(), 4);
    assert!(palette[0].starts_with('#'));
}

#[test]
fn fully_transparent_bitmap_falls_back_to_the_dark_color() {
    let img = Canvas::new(64, 64, Color { r: 9, g: 9, b: 9, a: 0 });
    let colors = extract_dominant_colors(&img, 4);
    assert_eq!(colors, vec![Color { r: 30, g: 30, b: 40, a: 255 }]);
}

#[test]
fn uniform_opaque_bitmap_yields_exactly_one_dominant_color() {
    let img = Canvas::new(80, 60, Color { r: 200, g: 16, b: 40, a: 255 });
    let colors = extract_dominant_colors(&img, 4);
    assert_eq!(colors.len(), 1);
    // The color comes back as the center of its quantized histogram bin.
    assert_eq!(colors[0], Color { r: 204, g: 20, b: 44, a: 255 });
}

#[test]
fn every_strategy_returns_four_hex_strings() {
    let dominant = vec![
        Color { r: 12, g: 140, b: 210, a: 255 },
        Color { r: 240, g: 200, b: 20, a: 255 },
    ];
    for strategy in [
        PaletteStrategy::Monochromatic,
        PaletteStrategy::Analogous,
        PaletteStrategy::Complementary,
        PaletteStrategy::Triadic,
    ] {
        let palette = generate_palette(&dominant, strategy);
        assert_eq!(palette.len(), 4);
        for entry in &palette {
            assert_eq!(entry.len(), 7);
            assert!(entry.starts_with('#'));
        }
    }
}

#[test]
fn empty_dominant_input_falls_back_to_the_default_palette() {
    let palette = generate_palette(&Vec::new(), PaletteStrategy::Triadic);
    assert_eq!(
        palette,
        vec![
            "#0E1228".to_string(),
            "#1348A5".to_string(),
            "#2B8CD6".to_string(),
            "#C2E6FF".to_string(),
        ]
    );
}

#[test]
fn dominant_colors_are_mutually_distant() {
    let mut img = Canvas::new(32, 32, Color { r: 250, g: 0, b: 0, a: 255 });
    for y in 0..32u32 {
        for x in 0..16u32 {
            img.put_pixel(x, y, Color { r: 0, g: 0, b: 250, a: 255 });
        }
    }
    let colors = extract_dominant_colors(&img, 4);
    for i in 0..colors.len() {
        for j in 0..colors.len() {
            if i != j {
                let a = colors[i];
                let b = colors[j];
                let d = (a.r as i32 - b.r as i32).abs() + (a.g as i32 - b.g as i32).abs()
                    + (a.b as i32 - b.b as i32).abs();
                assert!(d > 60);
            }
        }
    }
}
