use screenforge::config::{
    AutoColorStrategy, BackgroundConfig, BackgroundTemplate, CaptureConfig, Insets, OutputConfig,
    PhoneConfig, SceneConfig, default_corner_radius, default_frame_color, default_palette,
    default_seed,
};
use screenforge::hsl::{Hsl, hsl_to_rgb, rgb_to_hsl};
use screenforge::color::Color;
use screenforge::pipeline::{final_rel_path, first_duplicate_scene_id, raw_rel_path};
use screenforge::preview::{PreviewItem, html_escape, render_index_html};
use screenforge::snap::{SnapConfig, build_copy_config, calculate_phone_layout};

#[test]
fn defaults_match_the_documented_constants() {
    assert_eq!(default_seed(), 1);
    assert_eq!(default_corner_radius(), 88);
    assert_eq!(default_frame_color(), "#11151B");
    assert_eq!(default_palette().len(), 4);
    assert_eq!(Insets::default(), Insets { top: 28, right: 20, bottom: 28, left: 20 });
}

#[test]
fn achromatic_colors_have_zero_hue_and_saturation() {
    let h = rgb_to_hsl(Color { r: 77, g: 77, b: 77, a: 255 });
    assert_eq!(h.h, 0);
    assert_eq!(h.s, 0);
    let back = hsl_to_rgb(h);
    assert_eq!(back.r, back.g);
    assert_eq!(back.g, back.b);
    assert_eq!(back.a, 255);
}

#[test]
fn pure_red_sits_at_hue_zero_fully_saturated() {
    let h = rgb_to_hsl(Color { r: 255, g: 0, b: 0, a: 255 });
    assert_eq!(h.h, 0);
    assert_eq!(h.s, 1000);
    assert_eq!(h.l, 500);
    let back = hsl_to_rgb(h);
    assert!(back.r >= 250 && back.g <= 5 && back.b <= 5);
}

#[test]
fn hue_shifts_wrap_around_the_circle() {
    let base = Hsl::new(350000, 800, 400);
    assert_eq!(base.shift_hue(20000).h, 10000);
    assert_eq!(base.shift_hue(-360000).h, 350000);
    assert_eq!(base.with_lightness(2000).l, 1000);
    assert_eq!(base.adjust_saturation(500).s, 400);
}

#[test]
fn html_escaping_covers_the_five_special_characters() {
    assert_eq!(html_escape("a&b<c>d\"e'f"), "a&amp;b&lt;c&gt;d&quot;e&#39;f");
    assert_eq!(html_escape("plain"), "plain");
}

#[test]
fn the_gallery_page_contains_one_card_per_scene() {
    let items = vec![
        PreviewItem {
            scene_id: "hero<1>".to_string(),
            raw_rel: "raw/hero.png".to_string(),
            final_rel: "final/hero.png".to_string(),
        },
    ];
    let html = render_index_html(&items);
    assert!(html.starts_with("<!doctype html>"));
    assert!(html.contains("hero&lt;1&gt;"));
    assert!(html.contains("raw/hero.png"));
    assert!(html.ends_with("</html>"));
}

fn scene_with_id(id: &str) -> SceneConfig {
    SceneConfig {
        id: id.to_string(),
        capture: CaptureConfig::File { path: "raw.png".to_string() },
        output: OutputConfig { filename: "out.png".to_string(), width: 100, height: 100 },
        background: BackgroundConfig {
            template: BackgroundTemplate::Mesh,
            seed: 1,
            colors: Vec::new(),
            auto_colors: false,
            auto_strategy: AutoColorStrategy::Monochromatic,
        },
        phone: PhoneConfig {
            model: None,
            x: 0,
            y: 0,
            width: 10,
            height: 10,
            corner_radius: 88,
            screen_padding: Insets { top: 1, right: 1, bottom: 1, left: 1 },
            frame_color: "#11151B".to_string(),
            frame_border_width: 1,
            shadow_offset_y: 0,
            shadow_alpha: 0,
            overlay: None,
        },
        copy: None,
    }
}

#[test]
fn duplicate_scene_ids_are_detected() {
    let unique = vec![scene_with_id("a"), scene_with_id("b")];
    assert!(first_duplicate_scene_id(&unique).is_none());
    let dup = vec![scene_with_id("a"), scene_with_id("b"), scene_with_id("a")];
    assert_eq!(first_duplicate_scene_id(&dup), Some("a".to_string()));
}

#[test]
fn gallery_relative_paths() {
    assert_eq!(raw_rel_path("hero"), "raw/hero.png");
    assert_eq!(final_rel_path("hero.png"), "final/hero.png");
}

#[test]
fn snap_layout_uses_explicit_values_when_all_are_given() {
    let mut cfg = SnapConfig::default();
    cfg.phone_x = Some(1);
    cfg.phone_y = Some(2);
    cfg.phone_width = Some(3);
    cfg.phone_height = Some(4);
    assert_eq!(calculate_phone_layout(&cfg, 100, 200), (3, 4, 1, 2));
}

#[test]
fn snap_layout_fills_most_of_the_canvas_width() {
    let cfg = SnapConfig::default();
    let (w, h, x, y) = calculate_phone_layout(&cfg, 1000, 2000);
    assert_eq!(w, 1290 * 73 / 100);
    assert_eq!(h, w * 2);
    assert_eq!(x, (1290 - w) / 2);
    // No headline: below the vertical center by five percent.
    assert_eq!(y, (2796 - h) / 2 + 2796 * 5 / 100);
    let mut with_headline = SnapConfig::default();
    with_headline.headline = Some("Hi".to_string());
    let (_, _, _, y2) = calculate_phone_layout(&with_headline, 1000, 2000);
    assert_eq!(y2, 2796 * 15 / 100);
}

#[test]
fn snap_copy_exists_exactly_with_a_headline() {
    let mut cfg = SnapConfig::default();
    assert!(build_copy_config(&cfg).is_none());
    cfg.headline = Some("Hello".to_string());
    let copy = build_copy_config(&cfg).expect("copy");
    assert_eq!(copy.headline, "Hello");
    assert_eq!(copy.subheadline, "");
    assert_eq!(copy.color, "#F4F8FF");
}
