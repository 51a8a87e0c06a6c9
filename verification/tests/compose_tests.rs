use screenforge::canvas::Canvas;
use screenforge::color::Color;
use screenforge::compose::compose_scene;
use screenforge::config::{
    AutoColorStrategy, BackgroundConfig, BackgroundTemplate, CaptureConfig, Insets, OutputConfig,
    PhoneConfig, PhoneModel, SceneConfig,
};
use screenforge::errors::ForgeError;

fn scene_with_phone(phone: PhoneConfig) -> SceneConfig {
    SceneConfig {
        id: "scene".to_string(),
        capture: CaptureConfig::File { path: "raw.png".to_string() },
        output: OutputConfig { filename: "out.png".to_string(), width: 300, height: 300 },
        background: BackgroundConfig {
            template: BackgroundTemplate::Mesh,
            seed: 1,
            colors: Vec::new(),
            auto_colors: false,
            auto_strategy: AutoColorStrategy::Monochromatic,
        },
        phone: phone,
        copy: None,
    }
}

fn phone(width: u32, height: u32, padding: Insets) -> PhoneConfig {
    PhoneConfig {
        model: None,
        x: 20,
        y: 20,
        width,
        height,
        corner_radius: 12,
        screen_padding: padding,
        frame_color: "#11151B".to_string(),
        frame_border_width: 4,
        shadow_offset_y: 6,
        shadow_alpha: 74,
        overlay: None,
    }
}

#[test]
fn composing_preserves_the_canvas_dimensions() {
    let shot = Canvas::new(40, 80, Color { r: 10, g: 200, b: 10, a: 255 });
    let bg = Canvas::new(300, 300, Color { r: 5, g: 5, b: 5, a: 255 });
    let scene = scene_with_phone(phone(100, 200, Insets { top: 8, right: 8, bottom: 8, left: 8 }));
    let out = compose_scene(&shot, &scene, bg, None).expect("compose");
    assert_eq!(out.width(), 300);
    assert_eq!(out.height(), 300);
    // The screen center now shows the screenshot, not the background.
    let center = out.get_pixel(70, 120);
    assert!(center.g > 100);
}

#[test]
fn insets_that_consume_the_frame_fail_with_no_screen_space() {
    let shot = Canvas::new(40, 80, Color { r: 10, g: 200, b: 10, a: 255 });
    let bg = Canvas::new(300, 300, Color { r: 5, g: 5, b: 5, a: 255 });
    let scene = scene_with_phone(
        phone(100, 200, Insets { top: 8, right: 50, bottom: 8, left: 50 }),
    );
    let e = compose_scene(&shot, &scene, bg, None).unwrap_err();
    assert!(matches!(e, ForgeError::NoScreenSpace { .. }));
}

#[test]
fn a_zero_sized_frame_is_an_invalid_canvas() {
    let shot = Canvas::new(40, 80, Color { r: 10, g: 200, b: 10, a: 255 });
    let bg = Canvas::new(300, 300, Color { r: 5, g: 5, b: 5, a: 255 });
    let scene = scene_with_phone(phone(0, 200, Insets { top: 1, right: 1, bottom: 1, left: 1 }));
    let e = compose_scene(&shot, &scene, bg, None).unwrap_err();
    assert!(matches!(e, ForgeError::InvalidCanvasSize { .. }));
}

#[test]
fn an_unparsable_frame_color_is_rejected() {
    let shot = Canvas::new(40, 80, Color { r: 10, g: 200, b: 10, a: 255 });
    let bg = Canvas::new(300, 300, Color { r: 5, g: 5, b: 5, a: 255 });
    let mut p = phone(100, 200, Insets { top: 8, right: 8, bottom: 8, left: 8 });
    p.frame_color = "not-a-color".to_string();
    let scene = scene_with_phone(p);
    let e = compose_scene(&shot, &scene, bg, None).unwrap_err();
    assert!(matches!(e, ForgeError::InvalidColorFormat { .. }));
}

#[test]
fn an_overlay_replaces_the_programmatic_frame() {
    let shot = Canvas::new(40, 80, Color { r: 10, g: 200, b: 10, a: 255 });
    let bg = Canvas::new(300, 300, Color { r: 5, g: 5, b: 5, a: 255 });
    // A fully transparent overlay: composing must still succeed and keep
    // the background outside the screen area untouched by frame color.
    let overlay = Canvas::new(100, 200, Color { r: 255, g: 0, b: 0, a: 0 });
    let mut p = phone(100, 200, Insets { top: 8, right: 8, bottom: 8, left: 8 });
    p.model = Some(PhoneModel::Iphone16Pro);
    let scene = scene_with_phone(p);
    let out = compose_scene(&shot, &scene, bg, Some(&overlay)).expect("compose");
    assert_eq!(out.width(), 300);
    // A corner pixel far from the frame keeps the background color.
    assert_eq!(out.get_pixel(299, 299), Color { r: 5, g: 5, b: 5, a: 255 });
}

#[test]
fn a_model_scene_draws_the_decorative_cutout() {
    let shot = Canvas::new(40, 80, Color { r: 10, g: 200, b: 10, a: 255 });
    let bg = Canvas::new(300, 300, Color { r: 5, g: 5, b: 5, a: 255 });
    let mut p = phone(160, 260, Insets { top: 8, right: 8, bottom: 8, left: 8 });
    p.model = Some(PhoneModel::Iphone16Pro);
    let scene = scene_with_phone(p);
    let out = compose_scene(&shot, &scene, bg, None).expect("compose");
    assert_eq!(out.width(), 300);
    assert_eq!(out.height(), 300);
}
