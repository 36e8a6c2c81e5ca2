use nocrate::asushw::{
    sensor_count_request, sensor_from_info, sensor_info_request, sensor_value_request,
    sensor_version_request, unique_sources, update_buffer_request, AsusHWSensor,
};
use nocrate::backend::{AsusWmiBackend, WmiParam};
use nocrate::config::{apply_config_update, AppConfig, ConfigUpdate};
use nocrate::error::NoCrateError;
use nocrate::lhm::{group_sensors, lhm_status_from_query, LhmSensor, LhmStatus};

fn hw_backend() -> AsusWmiBackend {
    AsusWmiBackend::AsusHW { instance_path: "ASUSHW=1".to_string() }
}

fn sensor(index: u32, source: u32, data_type: u32) -> AsusHWSensor {
    AsusHWSensor {
        index,
        name: format!("sensor {index}"),
        sensor_type: "fan".to_string(),
        value_raw: 0,
        source,
        data_type,
    }
}

#[test]
fn sensor_info_type_mapping() {
    let t = sensor_from_info(0, 3, 1, 3, "CPU Temperature".to_string()).unwrap();
    assert_eq!(t.sensor_type, "temperature");
    assert_eq!(t.index, 0);
    assert_eq!(t.source, 3);
    assert_eq!(t.data_type, 3);
    assert_eq!(t.value_raw, 0);

    let f = sensor_from_info(4, 1, 2, 0, "CPU Fan".to_string()).unwrap();
    assert_eq!(f.sensor_type, "fan");

    assert!(sensor_from_info(9, 1, 0, 0, "x".to_string()).is_none());
    assert!(sensor_from_info(9, 1, 7, 0, "x".to_string()).is_none());
}

#[test]
fn micro_unit_scaling() {
    let mut s = sensor(0, 1, 3);
    s.value_raw = 60_500_000;
    assert_eq!(s.value_parts(), (60, 500_000));

    let mut plain = sensor(1, 1, 0);
    plain.value_raw = 1800;
    assert_eq!(plain.value_parts(), (1800, 0));
}

#[test]
fn source_groups_are_deduplicated() {
    let sensors = vec![
        sensor(0, 3, 0),
        sensor(1, 1, 0),
        sensor(2, 3, 0),
        sensor(3, 1, 0),
        sensor(4, 9, 0),
    ];
    let sources = unique_sources(&sensors);
    assert_eq!(sources, vec![3, 1, 9]);
    assert_eq!(unique_sources(&vec![]).len(), 0);
}

#[test]
fn asushw_requests_carry_method_and_params() {
    let b = hw_backend();
    let c = sensor_count_request(&b).unwrap();
    assert_eq!(c.object_path, "ASUSHW=1");
    assert_eq!(c.method, "sensor_get_number");
    assert!(c.params.is_empty());

    let v = sensor_version_request(&b).unwrap();
    assert_eq!(v.method, "sensor_get_version");

    let i = sensor_info_request(&b, 5).unwrap();
    assert_eq!(i.method, "sensor_get_info");
    assert_eq!(i.params[0].0, "Index");
    assert!(matches!(i.params[0].1, WmiParam::U32(5)));

    let u = update_buffer_request(&b, 3).unwrap();
    assert_eq!(u.method, "sensor_update_buffer");
    assert_eq!(u.params[0].0, "Source");

    let val = sensor_value_request(&b, 2).unwrap();
    assert_eq!(val.method, "sensor_get_value");
    assert!(matches!(val.params[0].1, WmiParam::U32(2)));
}

#[test]
fn asushw_requests_reject_other_backends() {
    let d = AsusWmiBackend::Desktop { instance_path: "DP".to_string() };
    assert!(matches!(sensor_count_request(&d), Err(NoCrateError::Wmi(_))));
    assert!(sensor_info_request(&d, 0).is_err());
    assert!(update_buffer_request(&d, 0).is_err());
    assert!(sensor_value_request(&d, 0).is_err());
    assert!(sensor_version_request(&d).is_err());
}

#[test]
fn config_defaults() {
    let c = AppConfig::default();
    assert_eq!(c.theme, "system");
    assert!(!c.close_to_tray);
    assert!(!c.auto_start);
    assert_eq!(c.fan_poll_interval_ms, 2000);
    assert_eq!(c.last_thermal_profile, 0);
    assert_eq!(c.last_aura_effect, "static");
    assert_eq!(c.last_aura_color, "#ff0000");
    assert_eq!(c.last_aura_speed, "medium");
    assert!(c.temp_alert_enabled);
    assert_eq!(c.temp_alert_threshold, 90);
}

#[test]
fn config_update_merges_only_provided_fields() {
    let base = AppConfig::default();
    let update = ConfigUpdate {
        theme: Some("dark".to_string()),
        close_to_tray: Some(true),
        auto_start: None,
        fan_poll_interval_ms: Some(500),
        last_thermal_profile: None,
        last_aura_effect: None,
        last_aura_color: Some("#00ff00".to_string()),
        last_aura_speed: None,
        temp_alert_enabled: None,
        temp_alert_threshold: Some(80),
    };
    let merged = apply_config_update(base, update);
    assert_eq!(merged.theme, "dark");
    assert!(merged.close_to_tray);
    assert!(!merged.auto_start); // kept
    assert_eq!(merged.fan_poll_interval_ms, 500);
    assert_eq!(merged.last_thermal_profile, 0); // kept
    assert_eq!(merged.last_aura_effect, "static"); // kept
    assert_eq!(merged.last_aura_color, "#00ff00");
    assert_eq!(merged.last_aura_speed, "medium"); // kept
    assert!(merged.temp_alert_enabled); // kept
    assert_eq!(merged.temp_alert_threshold, 80);
}

#[test]
fn lhm_status_cases() {
    assert!(matches!(lhm_status_from_query(false, Some(3)), LhmStatus::Unavailable));
    assert!(matches!(lhm_status_from_query(true, None), LhmStatus::Unavailable));
    assert!(matches!(lhm_status_from_query(true, Some(0)), LhmStatus::NoSensors));
    match lhm_status_from_query(true, Some(12)) {
        LhmStatus::Available { sensor_count } => assert_eq!(sensor_count, 12),
        _ => panic!("expected available"),
    }
}

fn lhm(name: &str, sensor_type: &str, value_milli: i64) -> LhmSensor {
    LhmSensor {
        identifier: format!("/test/{name}"),
        name: name.to_string(),
        sensor_type: sensor_type.to_string(),
        value_milli,
        min_milli: 0,
        max_milli: 0,
        parent: "/test".to_string(),
    }
}

#[test]
fn lhm_grouping_by_type() {
    let rows = vec![
        lhm("CPU Package", "Temperature", 61_500),
        lhm("Fan #1", "Fan", 980_000),
        lhm("Vcore", "Voltage", 1_250),
        lhm("Weird", "Energy", 1),
        lhm("CPU Total", "Load", 17_000),
        lhm("Core clock", "Clock", 4_200_000),
        lhm("Package", "Power", 42_000),
        lhm("Pump", "Control", 60_000),
        lhm("SSD", "Temperature", 35_000),
    ];
    let snap = group_sensors(rows);
    assert_eq!(snap.temperatures.len(), 2);
    assert_eq!(snap.temperatures[0].name, "CPU Package");
    assert_eq!(snap.temperatures[1].name, "SSD");
    assert_eq!(snap.fans.len(), 1);
    assert_eq!(snap.controls.len(), 1);
    assert_eq!(snap.voltages.len(), 1);
    assert_eq!(snap.clocks.len(), 1);
    assert_eq!(snap.loads.len(), 1);
    assert_eq!(snap.powers.len(), 1);
    // the "Energy" row belongs to no bucket
}

#[test]
fn error_messages_name_their_subsystem() {
    assert_eq!(NoCrateError::Wmi("boom".to_string()).message(), "WMI error: boom");
    assert_eq!(NoCrateError::Sio("io".to_string()).message(), "SIO error: io");
    assert_eq!(NoCrateError::Hid("usb".to_string()).message(), "HID error: usb");
    assert_eq!(NoCrateError::Config("bad".to_string()).message(), "Config error: bad");
    assert_eq!(NoCrateError::Unknown("x".to_string()).message(), "Unknown error: x");
    assert_eq!(NoCrateError::WindowsApi(0x8007_0005).message(), "Windows API error");
}
