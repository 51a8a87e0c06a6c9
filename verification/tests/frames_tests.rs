use screenforge::config::{
    AutoColorStrategy, BackgroundConfig, BackgroundTemplate, CaptureConfig, Insets, OutputConfig,
    PhoneConfig, PhoneModel, SceneConfig,
};
use screenforge::frames::{
    ImportAction, OverlayMeta, OverlayProbe, OverlaySource, import_decision, is_png_file,
    model_slug, normalize_frame_slug, resolve_overlay_for_compose, resolve_overlay_for_verify,
    verify_overlays,
};

fn scene(id: &str, model: Option<PhoneModel>, overlay: Option<String>) -> SceneConfig {
    SceneConfig {
        id: id.to_string(),
        capture: CaptureConfig::File { path: "raw.png".to_string() },
        output: OutputConfig { filename: "out.png".to_string(), width: 1290, height: 2796 },
        background: BackgroundConfig {
            template: BackgroundTemplate::Mesh,
            seed: 1,
            colors: Vec::new(),
            auto_colors: false,
            auto_strategy: AutoColorStrategy::Monochromatic,
        },
        phone: PhoneConfig {
            model,
            x: 10,
            y: 10,
            width: 100,
            height: 200,
            corner_radius: 88,
            screen_padding: Insets { top: 28, right: 20, bottom: 28, left: 20 },
            frame_color: "#11151B".to_string(),
            frame_border_width: 8,
            shadow_offset_y: 18,
            shadow_alpha: 74,
            overlay,
        },
        copy: None,
    }
}

#[test]
fn png_extension_checks() {
    assert!(is_png_file("frame.png"));
    assert!(is_png_file("dir/Frame.PNG"));
    assert!(!is_png_file("frame.jpg"));
    assert!(!is_png_file("dir/.png"));
    assert!(!is_png_file("png"));
}

#[test]
fn slugs_are_normalized() {
    assert_eq!(normalize_frame_slug("iPhone 16 Pro"), "iphone_16_pro");
    assert_eq!(normalize_frame_slug("  Fancy--Frame!! "), "fancy_frame");
    assert_eq!(normalize_frame_slug("___"), "");
    assert_eq!(normalize_frame_slug("ABC123"), "abc123");
}

#[test]
fn model_slugs_match_the_listing() {
    assert_eq!(model_slug(PhoneModel::Iphone16Pro), "iphone_16_pro");
    assert_eq!(model_slug(PhoneModel::Iphone17ProMax), "iphone_17_pro_max");
}

#[test]
fn explicit_overlays_win_over_model_defaults() {
    let s = scene("a", Some(PhoneModel::Iphone16Pro), Some("my/frame.png".to_string()));
    let o = resolve_overlay_for_verify(&s, "/cfg").expect("overlay");
    assert_eq!(o.path, "/cfg/my/frame.png");
    assert_eq!(o.source, OverlaySource::Explicit);
    assert_eq!(o.source.label(), "explicit");
}

#[test]
fn model_scenes_get_the_default_asset_path() {
    let s = scene("a", Some(PhoneModel::Iphone17Pro), None);
    let o = resolve_overlay_for_verify(&s, "/cfg").expect("overlay");
    assert_eq!(o.path, "/cfg/assets/frames/iphone_17_pro.png");
    assert_eq!(o.source, OverlaySource::ModelDefault);
    assert!(resolve_overlay_for_verify(&scene("b", None, None), "/cfg").is_none());
}

#[test]
fn compose_resolution_needs_the_default_asset_to_exist() {
    let s = scene("a", Some(PhoneModel::Iphone17Pro), None);
    assert!(resolve_overlay_for_compose(&s, "/cfg", false).is_none());
    let o = resolve_overlay_for_compose(&s, "/cfg", true).expect("overlay");
    assert_eq!(o.source, OverlaySource::ModelDefault);
}

#[test]
fn verify_overlays_reports_missing_explicit_overlay() {
    let scenes = vec![scene("missing_explicit", None, Some("missing.png".to_string()))];
    let probes = vec![Some(OverlayProbe {
        exists: false,
        meta: None,
        decode_error: String::new(),
    })];
    let summary = verify_overlays(&scenes, "/cfg", &probes);
    assert_eq!(summary.checked_overlays, 1);
    assert_eq!(summary.errors, 1);
    assert_eq!(summary.warnings, 0);
    assert!(summary.failed(false));
}

#[test]
fn verify_overlays_warns_when_model_overlay_is_missing() {
    let scenes = vec![scene("model_missing", Some(PhoneModel::Iphone16Pro), None)];
    let probes = vec![Some(OverlayProbe {
        exists: false,
        meta: None,
        decode_error: String::new(),
    })];
    let summary = verify_overlays(&scenes, "/cfg", &probes);
    assert_eq!(summary.checked_overlays, 1);
    assert_eq!(summary.errors, 0);
    assert_eq!(summary.warnings, 1);
    assert!(!summary.failed(false));
    assert!(summary.failed(true));
}

#[test]
fn verify_overlays_warns_on_dimension_mismatch() {
    let scenes = vec![scene("size_mismatch", Some(PhoneModel::Iphone17Pro), None)];
    let probes = vec![Some(OverlayProbe {
        exists: true,
        meta: Some(OverlayMeta { width: 300, height: 600, has_transparency: true }),
        decode_error: String::new(),
    })];
    let summary = verify_overlays(&scenes, "/cfg", &probes);
    assert_eq!(summary.checked_overlays, 1);
    assert_eq!(summary.errors, 0);
    assert_eq!(summary.warnings, 1);
    assert!(summary.issues.iter().any(|issue| issue.message.contains("does not match")));
}

#[test]
fn verify_overlays_flags_opaque_and_undecodable_files() {
    let scenes = vec![
        scene("opaque", None, Some("a.png".to_string())),
        scene("broken", None, Some("b.png".to_string())),
    ];
    let probes = vec![
        Some(OverlayProbe {
            exists: true,
            meta: Some(OverlayMeta { width: 100, height: 200, has_transparency: false }),
            decode_error: String::new(),
        }),
        Some(OverlayProbe {
            exists: true,
            meta: None,
            decode_error: "bad header".to_string(),
        }),
    ];
    let summary = verify_overlays(&scenes, "/cfg", &probes);
    assert_eq!(summary.checked_overlays, 2);
    assert_eq!(summary.errors, 2);
    assert_eq!(summary.warnings, 0);
}

#[test]
fn import_decisions_follow_the_import_rules() {
    let meta = Some(OverlayMeta { width: 20, height: 30, has_transparency: true });
    let opaque = Some(OverlayMeta { width: 20, height: 30, has_transparency: false });
    assert_eq!(
        import_decision("iPhone 16 Pro.png", "iPhone 16 Pro", true, meta, false, false),
        ImportAction::Import { dest_name: "iphone_16_pro.png".to_string() }
    );
    assert_eq!(
        import_decision("sub", "sub", false, meta, false, false),
        ImportAction::Ignore
    );
    assert!(matches!(
        import_decision("readme.txt", "readme", true, meta, false, false),
        ImportAction::Skip { .. }
    ));
    assert!(matches!(
        import_decision("Opaque.png", "Opaque", true, opaque, false, false),
        ImportAction::Skip { .. }
    ));
    assert!(matches!(
        import_decision("x.png", "x", true, meta, true, false),
        ImportAction::Skip { .. }
    ));
    assert_eq!(
        import_decision("x.png", "x", true, meta, true, true),
        ImportAction::Import { dest_name: "x.png".to_string() }
    );
}
