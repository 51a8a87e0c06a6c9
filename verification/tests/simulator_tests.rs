use screenforge::config::PhoneModel;
use screenforge::simulator::{
    Simulator, detect_phone_model, find_booted_simulators, find_simulator,
};
use screenforge::snap::list_booted;

fn sim(name: &str, udid: &str, state: &str) -> Simulator {
    Simulator {
        name: name.to_string(),
        udid: udid.to_string(),
        state: state.to_string(),
        is_available: true,
        device_type: "com.apple.CoreSimulator.SimDeviceType.iPhone-16-Pro".to_string(),
        runtime: "iOS".to_string(),
        phone_model: Some(PhoneModel::Iphone16Pro),
    }
}

#[test]
fn test_detect_phone_model() {
    assert_eq!(
        detect_phone_model("com.apple.CoreSimulator.SimDeviceType.iPhone-16-Pro"),
        Some(PhoneModel::Iphone16Pro)
    );
    assert_eq!(
        detect_phone_model("com.apple.CoreSimulator.SimDeviceType.iPhone-16-Pro-Max"),
        Some(PhoneModel::Iphone16ProMax)
    );
    assert_eq!(
        detect_phone_model("com.apple.CoreSimulator.SimDeviceType.iPhone-15-Pro"),
        Some(PhoneModel::Iphone16Pro)
    );
    assert_eq!(
        detect_phone_model("com.apple.CoreSimulator.SimDeviceType.Apple-Watch-Series-7-45mm"),
        None
    );
}

#[test]
fn detect_handles_new_models_and_plain_suffixes() {
    assert_eq!(
        detect_phone_model("com.apple.CoreSimulator.SimDeviceType.iPhone-17-Pro-Max"),
        Some(PhoneModel::Iphone17ProMax)
    );
    assert_eq!(detect_phone_model("iPhone-14-Pro"), Some(PhoneModel::Iphone16Pro));
    assert_eq!(detect_phone_model(""), None);
}

#[test]
fn find_prefers_udid_then_exact_name() {
    let sims = vec![
        sim("Alpha", "UDID-1", "Shutdown"),
        sim("UDID-1", "UDID-2", "Booted"),
        sim("alpha", "UDID-3", "Booted"),
    ];
    // The query matches a udid and a name; the udid wins.
    let s = find_simulator(&sims, "UDID-1").expect("find");
    assert_eq!(s.name, "Alpha");
    // An exact name match beats the case-insensitive one.
    let s = find_simulator(&sims, "alpha").expect("find");
    assert_eq!(s.udid, "UDID-3");
    // A case-insensitive exact match comes next.
    let s = find_simulator(&sims, "ALPHA").expect("find");
    assert_eq!(s.udid, "UDID-1");
}

#[test]
fn find_accepts_a_unique_partial_match() {
    let sims = vec![sim("iPhone 16 Pro", "A", "Booted"), sim("iPad", "B", "Booted")];
    let s = find_simulator(&sims, "16 pro").expect("find");
    assert_eq!(s.udid, "A");
}

#[test]
fn find_rejects_ambiguity_and_misses() {
    let sims = vec![sim("iPhone 16 Pro", "A", "Booted"), sim("iPhone 16 Pro Max", "B", "Booted")];
    assert!(find_simulator(&sims, "iPhone 16").is_err());
    assert!(find_simulator(&sims, "Pixel").is_err());
    assert!(find_simulator(&Vec::new(), "anything").is_err());
}

#[test]
fn booted_filter_and_listing() {
    let sims = vec![
        sim("One", "A", "Booted"),
        sim("Two", "B", "Shutdown"),
        sim("Three", "C", "Booted"),
    ];
    let booted = find_booted_simulators(&sims);
    assert_eq!(booted.len(), 2);
    assert!(booted.iter().all(|s| s.is_booted()));
    let infos = list_booted(&booted);
    assert_eq!(infos.len(), 2);
    assert_eq!(infos[0].name, "One");
    assert_eq!(infos[0].phone_model.as_deref(), Some("Iphone16Pro"));
}
