use nocrate::backend::{
    collect_fan_speeds, devs_request, dsts_request, fan_speed_from_status, select_backend,
    thermal_profile_from_status, AsusWmiBackend, BackendProbes, FanCurve, FanTarget, ThermalProfile,
    WmiParam, WmiResultRule,
};
use nocrate::asio::asio_hw_probe_plan;
use nocrate::backend::is_desktop_backend;
use nocrate::error::NoCrateError;

fn probes(
    desktop: Option<&str>,
    laptop: Option<&str>,
    laptop_class: bool,
    asushw: Option<&str>,
) -> BackendProbes {
    BackendProbes {
        desktop_instance: desktop.map(|s| s.to_string()),
        laptop_instance: laptop.map(|s| s.to_string()),
        laptop_class_exists: laptop_class,
        asushw_instance: asushw.map(|s| s.to_string()),
    }
}

#[test]
fn desktop_wins_when_present() {
    let b = select_backend(probes(Some("ASUSManagement.Id=1"), Some("x"), true, Some("y")))
        .expect("desktop must bind");
    assert_eq!(b.backend_type(), "desktop");
    match b {
        AsusWmiBackend::Desktop { instance_path } => assert_eq!(instance_path, "ASUSManagement.Id=1"),
        _ => panic!("expected the desktop backend"),
    }
}

#[test]
fn laptop_enumerated_before_conventional() {
    let b = select_backend(probes(None, Some("ASUSATKWMI_WMNB.Id=7"), true, None))
        .expect("laptop must bind");
    match b {
        AsusWmiBackend::Laptop { instance_path } => {
            assert_eq!(instance_path, "ASUSATKWMI_WMNB.Id=7")
        }
        _ => panic!("expected the laptop backend"),
    }
}

#[test]
fn laptop_conventional_path_when_class_exists() {
    let b = select_backend(probes(None, None, true, None)).expect("laptop must bind");
    match b {
        AsusWmiBackend::Laptop { instance_path } => {
            assert_eq!(instance_path, "ASUSATKWMI_WMNB.InstanceName='ACPI\\\\ATK0110\\\\0_0'")
        }
        _ => panic!("expected the laptop backend"),
    }
}

#[test]
fn asushw_is_the_last_resort() {
    let b = select_backend(probes(None, None, false, Some("ASUSHW=A"))).expect("asushw must bind");
    assert_eq!(b.backend_type(), "asushw");
}

#[test]
fn no_backend_is_terminal() {
    assert!(select_backend(probes(None, None, false, None)).is_err());
}

/// Identical probe conditions always select the same backend.
#[test]
fn backend_probing_is_deterministic() {
    for _ in 0..3 {
        let b1 = select_backend(probes(None, Some("L"), false, Some("A"))).unwrap();
        let b2 = select_backend(probes(None, Some("L"), false, Some("A"))).unwrap();
        assert_eq!(b1.backend_type(), b2.backend_type());
        assert_eq!(b1.label(), b2.label());
    }
}

#[test]
fn backend_labels() {
    let l = AsusWmiBackend::Laptop { instance_path: "p".to_string() };
    assert_eq!(l.label(), "Laptop (ASUSATKWMI_WMNB)");
    assert_eq!(l.backend_type(), "laptop");
    let d = AsusWmiBackend::Desktop { instance_path: "p".to_string() };
    assert_eq!(d.label(), "Desktop (ASUSManagement)");
    let a = AsusWmiBackend::AsusHW { instance_path: "p".to_string() };
    assert_eq!(a.label(), "Desktop (ASUSHW Sensors)");
}

#[test]
fn dsts_on_laptop_and_desktop() {
    let l = AsusWmiBackend::Laptop { instance_path: "LP".to_string() };
    let plan = dsts_request(&l, 0x0011_0013).unwrap();
    assert_eq!(plan.call.object_path, "LP");
    assert_eq!(plan.call.method, "DSTS");
    assert_eq!(plan.call.params.len(), 1);
    assert_eq!(plan.call.params[0].0, "Device_ID");
    assert!(matches!(plan.call.params[0].1, WmiParam::U32(0x0011_0013)));
    assert!(matches!(&plan.result, WmiResultRule::Property(p) if p == "Device_Status"));

    let d = AsusWmiBackend::Desktop { instance_path: "DP".to_string() };
    let plan = dsts_request(&d, 7).unwrap();
    assert_eq!(plan.call.method, "device_status");
    assert_eq!(plan.call.params[0].0, "device_id");
    assert!(matches!(&plan.result, WmiResultRule::Property(p) if p == "ctrl_param"));
}

/// The sensor-only backend rejects both operations with a typed error and
/// never panics.
#[test]
fn asushw_rejects_dsts_and_devs() {
    let a = AsusWmiBackend::AsusHW { instance_path: "HW".to_string() };
    assert!(matches!(dsts_request(&a, 1), Err(NoCrateError::Wmi(_))));
    assert!(matches!(devs_request(&a, 1, 2), Err(NoCrateError::Wmi(_))));
}

#[test]
fn devs_on_desktop_reports_the_sentinel() {
    let d = AsusWmiBackend::Desktop { instance_path: "DP".to_string() };
    let plan = devs_request(&d, 0x0012_0075, 2).unwrap();
    assert_eq!(plan.call.method, "device_ctrl");
    assert_eq!(plan.call.params.len(), 2);
    assert_eq!(plan.call.params[1].0, "ctrl_param");
    assert!(matches!(plan.result, WmiResultRule::ConstantOne));

    let l = AsusWmiBackend::Laptop { instance_path: "LP".to_string() };
    let plan = devs_request(&l, 0x0012_0075, 2).unwrap();
    assert_eq!(plan.call.method, "DEVS");
    assert_eq!(plan.call.params[1].0, "Control_Status");
}

#[test]
fn fan_speed_masks_status_flags() {
    assert_eq!(fan_speed_from_status(0x0001_04B0), 0x04B0);
    assert_eq!(fan_speed_from_status(0), 0);
    assert_eq!(fan_speed_from_status(0xFFFF_FFFF), 0xFFFF);
}

/// A target whose status read failed is skipped; at most three entries.
#[test]
fn fan_speed_list_skips_failed_targets() {
    let all = collect_fan_speeds(Some(1200), Some(800), Some(600));
    assert_eq!(all.len(), 3);
    assert_eq!(all[0].target, FanTarget::Cpu);
    assert_eq!(all[0].rpm, 1200);
    assert_eq!(all[2].target, FanTarget::Mid);

    let partial = collect_fan_speeds(Some(0x0002_04B0), None, Some(600));
    assert_eq!(partial.len(), 2);
    assert_eq!(partial[0].target, FanTarget::Cpu);
    assert_eq!(partial[0].rpm, 0x04B0);
    assert_eq!(partial[1].target, FanTarget::Mid);

    assert_eq!(collect_fan_speeds(None, None, None).len(), 0);
}

#[test]
fn fan_target_device_ids() {
    assert_eq!(FanTarget::Cpu.speed_device_id(), 0x0011_0013);
    assert_eq!(FanTarget::Gpu.speed_device_id(), 0x0011_0014);
    assert_eq!(FanTarget::Mid.speed_device_id(), 0x0011_0031);
    assert_eq!(FanTarget::Cpu.curve_device_id(), 0x0011_0024);
    assert_eq!(FanTarget::Gpu.curve_device_id(), 0x0011_0025);
    assert_eq!(FanTarget::Mid.curve_device_id(), 0x0011_0032);
}

#[test]
fn thermal_profile_raw_round_trip() {
    for p in [ThermalProfile::Standard, ThermalProfile::Performance, ThermalProfile::Silent] {
        assert_eq!(ThermalProfile::from_raw(p.to_raw()), Some(p));
    }
    assert_eq!(ThermalProfile::from_raw(0x100), Some(ThermalProfile::Standard));
    assert_eq!(ThermalProfile::from_raw(3), None);
}

#[test]
fn thermal_profile_status_decode() {
    assert!(matches!(thermal_profile_from_status(0), Ok(ThermalProfile::Standard)));
    assert!(matches!(thermal_profile_from_status(1), Ok(ThermalProfile::Performance)));
    assert!(matches!(thermal_profile_from_status(2), Ok(ThermalProfile::Silent)));
    assert!(matches!(thermal_profile_from_status(0x37), Err(NoCrateError::Wmi(_))));
}

#[test]
fn default_fan_curve_ramps_upward() {
    let c = FanCurve::default_for(FanTarget::Gpu);
    assert_eq!(c.target, FanTarget::Gpu);
    assert_eq!(c.points.len(), 8);
    assert_eq!(c.points[0].temp_c, 30);
    assert_eq!(c.points[0].duty_pct, 30);
    assert_eq!(c.points[7].temp_c, 90);
    assert_eq!(c.points[7].duty_pct, 100);
    for w in c.points.windows(2) {
        assert!(w[0].temp_c < w[1].temp_c);
        assert!(w[0].duty_pct <= w[1].duty_pct);
    }
}

#[test]
fn desktop_backend_predicate() {
    assert!(is_desktop_backend(&AsusWmiBackend::Desktop { instance_path: "p".to_string() }));
    assert!(!is_desktop_backend(&AsusWmiBackend::Laptop { instance_path: "p".to_string() }));
    assert!(!is_desktop_backend(&AsusWmiBackend::AsusHW { instance_path: "p".to_string() }));
}

#[test]
fn asio_probe_plan_is_desktop_only() {
    let d = AsusWmiBackend::Desktop { instance_path: "DP".to_string() };
    let probes = asio_hw_probe_plan(&d).unwrap();
    assert_eq!(probes.len(), 9);
    assert_eq!(probes[0].call.method, "asio_hw_fun07");
    assert_eq!(probes[0].call.object_path, "DP");
    assert!(matches!(probes[0].call.params[0].1, WmiParam::U32(0x2E)));
    assert_eq!(probes[0].out_property, "bData");
    assert_eq!(probes[3].call.method, "asio_hw_fun21");
    assert!(matches!(probes[3].call.params[1].1, WmiParam::U8(0x4F)));
    assert_eq!(probes[7].call.method, "asio_hw_fun19");
    assert!(matches!(probes[7].call.params[0].1, WmiParam::U8(0x0B)));
    assert_eq!(probes[8].call.method, "asio_hw_fun23");
    assert!(matches!(&probes[8].call.params[0].1, WmiParam::Str(s) if s == "00,4F"));
    assert_eq!(probes[8].out_property, "DataArray");

    let l = AsusWmiBackend::Laptop { instance_path: "LP".to_string() };
    assert!(asio_hw_probe_plan(&l).is_err());
}
