use screenforge::color::{Color, lerp_color, parse_hex_rgba, rgba_to_hex};
use screenforge::errors::ForgeError;

#[test]
fn parse_six_digit_hex_is_opaque() {
    let c = parse_hex_rgba("#FF0000").expect("parse");
    assert_eq!(c, Color { r: 255, g: 0, b: 0, a: 255 });
}

#[test]
fn parse_rejects_non_hex() {
    let e = parse_hex_rgba("zz0000").unwrap_err();
    assert!(matches!(e, ForgeError::InvalidColorFormat { .. }));
}

#[test]
fn parse_eight_digit_hex_keeps_alpha() {
    let c = parse_hex_rgba("11223380").expect("parse");
    assert_eq!(c, Color { r: 0x11, g: 0x22, b: 0x33, a: 0x80 });
}

#[test]
fn parse_accepts_whitespace_and_lower_case() {
    let c = parse_hex_rgba("  #aabbcc \n").expect("parse");
    assert_eq!(c, Color { r: 0xAA, g: 0xBB, b: 0xCC, a: 255 });
}

#[test]
fn parse_rejects_wrong_length() {
    assert!(parse_hex_rgba("#FFF").is_err());
    assert!(parse_hex_rgba("").is_err());
    assert!(parse_hex_rgba("#AABBCCDDEE").is_err());
}

#[test]
fn to_hex_is_uppercase_and_drops_alpha() {
    let s = rgba_to_hex(Color { r: 10, g: 171, b: 252, a: 9 });
    assert_eq!(s, "#0AABFC");
}

#[test]
fn hex_round_trip_recovers_rgb() {
    let samples = [
        Color { r: 0, g: 0, b: 0, a: 255 },
        Color { r: 255, g: 255, b: 255, a: 255 },
        Color { r: 14, g: 18, b: 40, a: 255 },
        Color { r: 194, g: 230, b: 255, a: 255 },
        Color { r: 1, g: 127, b: 200, a: 255 },
    ];
    for c in samples {
        let back = parse_hex_rgba(&rgba_to_hex(c)).expect("round trip");
        assert_eq!(back, c);
    }
}

#[test]
fn lerp_with_itself_is_identity() {
    let c = Color { r: 13, g: 200, b: 77, a: 255 };
    for t in [0u32, 1, 1000, 32768, 65535, 65536, 1 << 31] {
        assert_eq!(lerp_color(c, c, t), c);
    }
}

#[test]
fn lerp_endpoints() {
    let a = Color { r: 0, g: 100, b: 255, a: 255 };
    let b = Color { r: 255, g: 0, b: 9, a: 128 };
    assert_eq!(lerp_color(a, b, 0), a);
    assert_eq!(lerp_color(a, b, 65536), b);
    assert_eq!(lerp_color(a, b, u32::MAX), b);
}

#[test]
fn lerp_midpoint_rounds_to_nearest() {
    let a = Color { r: 0, g: 0, b: 0, a: 255 };
    let b = Color { r: 255, g: 255, b: 255, a: 255 };
    let mid = lerp_color(a, b, 32768);
    assert_eq!(mid, Color { r: 128, g: 128, b: 128, a: 255 });
}

#[test]
fn invalid_color_message_names_the_input() {
    let e = parse_hex_rgba("oops").unwrap_err();
    let msg = e.message();
    assert!(msg.contains("oops"));
}

#[test]
fn boundary_failures_have_labeled_messages() {
    let font = ForgeError::FontLoadFailure;
    assert!(font.message().contains("font"));
    let overlay = ForgeError::OverlayDecodeFailure { path: "assets/frames/x.png".to_string() };
    assert!(overlay.message().contains("assets/frames/x.png"));
    let space = ForgeError::NoScreenSpace { width: 0, height: 10 };
    assert!(space.message().contains("space"));
}
