use nocrate::backend::{AsusWmiBackend, WmiParam};
use nocrate::error::NoCrateError;
use nocrate::policy::{
    collect_policies, desktop_fan_name, fan_policy_from_props, fan_policy_request,
    set_fan_policy_request, set_fan_policy_result, str_eq, DesktopFanMode, DesktopFanPolicy,
    DesktopFanProfile, DESKTOP_MAX_FAN_HEADERS,
};

/// GetFanPolicy reply {ErrorCode=0, Mode="PWM", Profile="STANDARD",
/// LowLimit=600} decodes to {mode: Pwm, profile: Standard, low_limit: 600}.
#[test]
fn policy_decode_pwm_standard_600() {
    let p = fan_policy_from_props(0, 0, "PWM", "STANDARD", "CPU".to_string(), 600)
        .expect("header must be present");
    assert_eq!(p.fan_type, 0);
    assert_eq!(p.mode, DesktopFanMode::Pwm);
    assert_eq!(p.profile, DesktopFanProfile::Standard);
    assert_eq!(p.source, "CPU");
    assert_eq!(p.low_limit, 600);
}

#[test]
fn policy_decode_absent_header() {
    assert!(fan_policy_from_props(5, 0xEA, "PWM", "STANDARD", "CPU".to_string(), 600).is_none());
}

/// Case folding happens before matching: lower-case wire strings decode
/// the same way (this fails if the uppercase step handed its input back).
#[test]
fn mode_and_profile_fold_case() {
    assert_eq!(DesktopFanMode::from_wmi("pwm"), DesktopFanMode::Pwm);
    assert_eq!(DesktopFanMode::from_wmi("Pwm"), DesktopFanMode::Pwm);
    assert_eq!(DesktopFanMode::from_wmi("AUTO"), DesktopFanMode::Auto);
    assert_eq!(DesktopFanMode::from_wmi("dc"), DesktopFanMode::Auto);
    assert_eq!(DesktopFanProfile::from_wmi("manual"), DesktopFanProfile::Manual);
    assert_eq!(DesktopFanProfile::from_wmi("sTanDard"), DesktopFanProfile::Standard);
    assert_eq!(DesktopFanProfile::from_wmi("TURBO"), DesktopFanProfile::Standard);
}

#[test]
fn mode_and_profile_wire_strings() {
    assert_eq!(DesktopFanMode::Pwm.to_wmi(), "PWM");
    assert_eq!(DesktopFanMode::Auto.to_wmi(), "AUTO");
    assert_eq!(DesktopFanProfile::Manual.to_wmi(), "MANUAL");
    assert_eq!(DesktopFanProfile::Standard.to_wmi(), "STANDARD");
}

#[test]
fn policy_request_is_desktop_only() {
    let d = AsusWmiBackend::Desktop { instance_path: "DP".to_string() };
    let call = fan_policy_request(&d, 2).unwrap();
    assert_eq!(call.object_path, "DP");
    assert_eq!(call.method, "GetFanPolicy");
    assert_eq!(call.params.len(), 1);
    assert_eq!(call.params[0].0, "FanType");
    assert!(matches!(call.params[0].1, WmiParam::U8(2)));

    let l = AsusWmiBackend::Laptop { instance_path: "LP".to_string() };
    assert!(matches!(fan_policy_request(&l, 2), Err(NoCrateError::Wmi(_))));
    let a = AsusWmiBackend::AsusHW { instance_path: "HW".to_string() };
    assert!(matches!(fan_policy_request(&a, 2), Err(NoCrateError::Wmi(_))));
}

#[test]
fn set_policy_request_parameters() {
    let d = AsusWmiBackend::Desktop { instance_path: "DP".to_string() };
    let p = DesktopFanPolicy {
        fan_type: 1,
        mode: DesktopFanMode::Auto,
        profile: DesktopFanProfile::Manual,
        source: "CPU".to_string(),
        low_limit: 450,
    };
    let call = set_fan_policy_request(&d, &p).unwrap();
    assert_eq!(call.method, "SetFanPolicy");
    assert_eq!(call.params.len(), 5);
    assert_eq!(call.params[0].0, "FanType");
    assert!(matches!(call.params[0].1, WmiParam::U8(1)));
    assert_eq!(call.params[1].0, "LowLimit");
    assert!(matches!(call.params[1].1, WmiParam::U32(450)));
    assert!(matches!(&call.params[2].1, WmiParam::Str(s) if s == "AUTO"));
    assert!(matches!(&call.params[3].1, WmiParam::Str(s) if s == "MANUAL"));
    assert!(matches!(&call.params[4].1, WmiParam::Str(s) if s == "CPU"));

    let l = AsusWmiBackend::Laptop { instance_path: "LP".to_string() };
    assert!(set_fan_policy_request(&l, &p).is_err());
}

#[test]
fn set_policy_result_by_error_code() {
    assert!(set_fan_policy_result(0).is_ok());
    assert!(matches!(set_fan_policy_result(0xEA), Err(NoCrateError::Wmi(_))));
}

#[test]
fn policy_sweep_drops_absent_headers() {
    let mk = |ft: u8| DesktopFanPolicy {
        fan_type: ft,
        mode: DesktopFanMode::Pwm,
        profile: DesktopFanProfile::Standard,
        source: "CPU".to_string(),
        low_limit: 200,
    };
    let sweep = vec![Some(mk(0)), None, Some(mk(2)), None, None, None, None, None];
    assert_eq!(sweep.len(), DESKTOP_MAX_FAN_HEADERS as usize);
    let present = collect_policies(sweep);
    assert_eq!(present.len(), 2);
    assert_eq!(present[0].fan_type, 0);
    assert_eq!(present[1].fan_type, 2);

    assert_eq!(collect_policies(vec![None, None]).len(), 0);
}

#[test]
fn desktop_fan_names() {
    assert_eq!(desktop_fan_name(0), "CPU Fan");
    assert_eq!(desktop_fan_name(3), "Chassis Fan 3");
    assert_eq!(desktop_fan_name(7), "Chassis Fan 7");
    assert_eq!(desktop_fan_name(8), "Unknown Fan");
    assert_eq!(desktop_fan_name(255), "Unknown Fan");
}

#[test]
fn str_eq_is_exact() {
    assert!(str_eq("PWM", "PWM"));
    assert!(!str_eq("PWM", "PW"));
    assert!(!str_eq("PWM", "pwm"));
    assert!(str_eq("", ""));
}
