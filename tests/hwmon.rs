use lact_daemon::hwmon::{first_sensor_file, matches_sensor, select_sensor_files};
use lact_daemon::text::parse_attribute;

fn names(v: &[&str]) -> Vec<String> {
    v.iter().map(|s| s.to_string()).collect()
}

#[test]
fn temp_inputs_sorted_without_companions() {
    let dir = names(&["temp2_input", "temp1_crit", "temp1_input"]);
    assert_eq!(select_sensor_files(&dir, "temp", "_input"), names(&["temp1_input", "temp2_input"]));
}

#[test]
fn selection_from_listing_order() {
    let dir = names(&["temp1_input", "temp2_input", "temp1_crit"]);
    assert_eq!(select_sensor_files(&dir, "temp", "_input"), names(&["temp1_input", "temp2_input"]));
}

#[test]
fn first_sensor_is_lowest_name() {
    let dir = names(&["power2_max", "power1_max", "power1_max_default", "name"]);
    assert_eq!(first_sensor_file(&dir, "power", "_max"), Some("power1_max".to_string()));
    assert_eq!(first_sensor_file(&dir, "fan", "_input"), None);
}

#[test]
fn sensor_name_rule() {
    assert!(matches_sensor("energy1_input", "energy", "_input"));
    assert!(!matches_sensor("power1_rated_max", "power", "_max"));
    assert!(matches_sensor("power_max", "power", "_max"));
    assert!(!matches_sensor("temp_input", "temp1", "_input"));
    assert!(!matches_sensor("in0_label", "in", "_input"));
}

#[test]
fn attribute_contents_are_read() {
    assert_eq!(parse_attribute("1200\n"), Some(1200));
    assert_eq!(parse_attribute("  35000000 \n"), Some(35_000_000));
    assert_eq!(parse_attribute("abc\n"), None);
    assert_eq!(parse_attribute("12 34\n"), None);
    assert_eq!(parse_attribute(""), None);
    assert_eq!(parse_attribute("18446744073709551616\n"), None);
}
