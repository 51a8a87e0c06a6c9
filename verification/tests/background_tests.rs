use screenforge::background::render_background;
use screenforge::config::{AutoColorStrategy, BackgroundConfig, BackgroundTemplate};
use screenforge::errors::ForgeError;

fn four_colors() -> Vec<String> {
    vec![
        "#0E1228".to_string(),
        "#1348A5".to_string(),
        "#2B8CD6".to_string(),
        "#C2E6FF".to_string(),
    ]
}

fn cfg(template: BackgroundTemplate, seed: u64, colors: Vec<String>) -> BackgroundConfig {
    BackgroundConfig {
        template,
        seed,
        colors,
        auto_colors: false,
        auto_strategy: AutoColorStrategy::Monochromatic,
    }
}

#[test]
fn mesh_is_deterministic_per_seed() {
    let a = render_background(&cfg(BackgroundTemplate::Mesh, 42, four_colors()), 100, 100)
        .expect("render");
    let b = render_background(&cfg(BackgroundTemplate::Mesh, 42, four_colors()), 100, 100)
        .expect("render");
    assert_eq!(a, b);
    let c = render_background(&cfg(BackgroundTemplate::Mesh, 43, four_colors()), 100, 100)
        .expect("render");
    assert_ne!(a, c);
}

#[test]
fn stripes_render_and_are_deterministic() {
    let a = render_background(&cfg(BackgroundTemplate::Stripes, 7, four_colors()), 64, 48)
        .expect("render");
    let b = render_background(&cfg(BackgroundTemplate::Stripes, 7, four_colors()), 64, 48)
        .expect("render");
    assert_eq!(a, b);
    assert_eq!(a.width(), 64);
    assert_eq!(a.height(), 48);
}

#[test]
fn background_output_is_fully_opaque() {
    let colors = vec!["#11223344".to_string(), "#55667788".to_string()];
    let img = render_background(&cfg(BackgroundTemplate::Mesh, 5, colors), 16, 16)
        .expect("render");
    for y in 0..16u32 {
        for x in 0..16u32 {
            assert_eq!(img.get_pixel(x, y).a, 255);
        }
    }
}

#[test]
fn zero_sized_canvas_is_rejected() {
    let e = render_background(&cfg(BackgroundTemplate::Mesh, 1, four_colors()), 0, 100)
        .unwrap_err();
    assert!(matches!(e, ForgeError::InvalidCanvasSize { width: 0, height: 100 }));
    let e = render_background(&cfg(BackgroundTemplate::Stripes, 1, four_colors()), 100, 0)
        .unwrap_err();
    assert!(matches!(e, ForgeError::InvalidCanvasSize { width: 100, height: 0 }));
}

#[test]
fn short_palette_is_rejected() {
    let e = render_background(
        &cfg(BackgroundTemplate::Mesh, 1, vec!["#112233".to_string()]),
        10,
        10,
    )
    .unwrap_err();
    assert!(matches!(e, ForgeError::InsufficientPalette { count: 1 }));
}

#[test]
fn bad_palette_color_is_rejected() {
    let colors = vec!["#112233".to_string(), "nonsense".to_string()];
    let e = render_background(&cfg(BackgroundTemplate::Mesh, 1, colors), 10, 10).unwrap_err();
    match e {
        ForgeError::InvalidColorFormat { input } => assert_eq!(input, "nonsense"),
        other => panic!("unexpected error {:?}", other),
    }
}
