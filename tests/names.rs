use lact_daemon::freq::DriverType;
use lact_daemon::names::{label_file_name, temperature_key, throttle_reasons};

#[test]
fn i915_throttle_reasons() {
    let entries = vec![
        ("throttle_reason_status".to_string(), Some(1)),
        ("throttle_reason_pl1".to_string(), Some(1)),
        ("throttle_reason_thermal".to_string(), Some(0)),
        ("throttle_reason_vr_tdc".to_string(), None),
        ("rps_up_threshold_pct".to_string(), Some(95)),
    ];
    assert_eq!(throttle_reasons(DriverType::I915, &entries), vec!["pl1".to_string()]);
}

#[test]
fn xe_throttle_reasons() {
    let entries = vec![
        ("reason_status".to_string(), Some(1)),
        ("reason_pl2".to_string(), Some(1)),
        ("status".to_string(), Some(1)),
    ];
    assert_eq!(throttle_reasons(DriverType::Xe, &entries), vec!["status".to_string(), "pl2".to_string()]);
}

#[test]
fn label_file_for_input() {
    assert_eq!(label_file_name("temp2_input"), Some("temp2_label".to_string()));
    assert_eq!(label_file_name("temp2_crit"), None);
}

#[test]
fn temperature_key_defaults_to_gpu() {
    assert_eq!(temperature_key(None), "gpu");
    assert_eq!(temperature_key(Some("vram".to_string())), "vram");
}
