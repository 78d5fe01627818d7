use hwmon_gtk::hwmon::{core_label, is_policy, line_text, module_index, sensor_file};
use hwmon_gtk::sensor_type::SensorType;

#[test]
fn sensor_input_file_names() {
    let f = sensor_file(b"temp1_input").unwrap();
    assert_eq!(f.prefix, "temp");
    assert_eq!(f.index, 1);
    assert_eq!(f.name, "temp1");
    assert_eq!(f.label_file, "temp1_label");
    assert!(matches!(f.typ, SensorType::Temperature));
    let f = sensor_file(b"fan3_input").unwrap();
    assert!(matches!(f.typ, SensorType::Fan));
    assert_eq!(f.name, "fan3");
    let f = sensor_file(b"power1_input").unwrap();
    assert!(matches!(f.typ, SensorType::Other(ref p) if p == "power"));
}

#[test]
fn the_prefix_takes_all_but_the_last_digit() {
    let f = sensor_file(b"temp12_input").unwrap();
    assert_eq!(f.prefix, "temp1");
    assert_eq!(f.index, 2);
    assert_eq!(f.name, "temp12");
}

#[test]
fn other_sensor_files_are_not_inputs() {
    assert!(sensor_file(b"temp1_label").is_none());
    assert!(sensor_file(b"temp1_max").is_none());
    assert!(sensor_file(b"name").is_none());
    assert!(sensor_file(b"uevent").is_none());
}

#[test]
fn device_and_policy_directories() {
    assert_eq!(module_index(b"hwmon3"), Some(3));
    assert_eq!(module_index(b"hwmon12"), Some(12));
    assert_eq!(module_index(b"hwmon"), None);
    assert_eq!(module_index(b"thermal0"), None);
    assert!(is_policy(b"policy0"));
    assert!(!is_policy(b"ondemand"));
}

#[test]
fn labels_and_names() {
    assert_eq!(core_label(0), "CPU 0");
    assert_eq!(core_label(12), "CPU 12");
    assert_eq!(core_label(65535), "CPU 65535");
    assert_eq!(line_text("nct6775\n".to_string()), "nct6775");
    assert_eq!(line_text("Package id 0".to_string()), "Package id 0");
    assert_eq!(line_text(String::new()), "");
}

#[test]
fn sensor_kinds_and_units() {
    assert!(matches!(SensorType::from_str("cur"), SensorType::Current));
    assert!(matches!(SensorType::from_str("in"), SensorType::Voltage));
    assert_eq!(SensorType::from_str("cur").unit(), " A");
    assert_eq!(SensorType::from_str("fan").unit(), " RPM");
    assert_eq!(SensorType::from_str("temp").unit(), "°C");
    assert_eq!(SensorType::from_str("in").unit(), "v");
    assert_eq!(SensorType::from_str("power").unit(), "");
}
