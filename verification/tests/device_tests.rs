use screenforge::config::{Insets, PhoneConfig, PhoneModel};
use screenforge::devices::{device_listings, resolve_phone_style};

fn base_phone(model: Option<PhoneModel>) -> PhoneConfig {
    PhoneConfig {
        model,
        x: 10,
        y: 10,
        width: 100,
        height: 200,
        corner_radius: 88,
        screen_padding: Insets { top: 28, right: 20, bottom: 28, left: 20 },
        frame_color: "#11151B".to_string(),
        frame_border_width: 8,
        shadow_offset_y: 18,
        shadow_alpha: 74,
        overlay: None,
    }
}

#[test]
fn default_fields_are_replaced_by_the_device_profile() {
    let style = resolve_phone_style(&base_phone(Some(PhoneModel::Iphone16Pro)));
    assert_eq!(style.corner_radius, 116);
    assert_eq!(style.screen_padding, Insets { top: 54, right: 28, bottom: 40, left: 28 });
    assert_eq!(style.frame_color, "#7A7F89");
    assert_eq!(style.frame_border_width, 13);
    assert_eq!(style.shadow_offset_y, 24);
    assert_eq!(style.shadow_alpha, 82);
    assert!(style.island.is_some());
}

#[test]
fn explicit_fields_survive_the_profile() {
    let mut phone = base_phone(Some(PhoneModel::Iphone17ProMax));
    phone.corner_radius = 40;
    phone.frame_color = "#123456".to_string();
    phone.shadow_alpha = 10;
    let style = resolve_phone_style(&phone);
    assert_eq!(style.corner_radius, 40);
    assert_eq!(style.frame_color, "#123456");
    assert_eq!(style.shadow_alpha, 10);
    // Untouched defaults still come from the profile.
    assert_eq!(style.frame_border_width, 15);
}

#[test]
fn the_default_frame_color_matches_case_insensitively() {
    let mut phone = base_phone(Some(PhoneModel::Iphone16Pro));
    phone.frame_color = "#11151b".to_string();
    let style = resolve_phone_style(&phone);
    assert_eq!(style.frame_color, "#7A7F89");
}

#[test]
fn without_a_model_everything_is_kept_and_no_cutout_is_drawn() {
    let style = resolve_phone_style(&base_phone(None));
    assert_eq!(style.corner_radius, 88);
    assert_eq!(style.frame_color, "#11151B");
    assert!(style.island.is_none());
}

#[test]
fn listings_cover_the_four_models() {
    let listings = device_listings();
    assert_eq!(listings.len(), 4);
    assert_eq!(listings[0].slug, "iphone_16_pro");
    assert_eq!(listings[3].display_name, "iPhone 17 Pro Max");
}
