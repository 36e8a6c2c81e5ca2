//! Application configuration values and the field-merge update rule.
//!
//! Persistence (reading and writing the JSON file) belongs to the
//! embedding application; this module holds the configuration data, its
//! defaults, and the rule that merges a partial update into a
//! configuration: a provided field replaces the old value, an omitted one
//! keeps it.

use vstd::prelude::*;

verus! {

/// Application configuration, persisted by the embedding application.
#[derive(Debug)]
pub struct AppConfig {
    /// User-selected theme: "light" | "dark" | "system".
    pub theme: String,
    /// Whether to minimize to the system tray on close.
    pub close_to_tray: bool,
    /// Whether to launch at system startup.
    pub auto_start: bool,
    /// Fan polling interval in milliseconds.
    pub fan_poll_interval_ms: u64,
    /// Last selected thermal profile index (0 standard, 1 performance,
    /// 2 silent).
    pub last_thermal_profile: u8,
    /// Last selected AURA effect name.
    pub last_aura_effect: String,
    /// Last selected AURA color as "#RRGGBB".
    pub last_aura_color: String,
    /// Last selected AURA speed: "slow" | "medium" | "fast".
    pub last_aura_speed: String,
    /// Whether temperature threshold alerts are enabled.
    pub temp_alert_enabled: bool,
    /// Temperature threshold in degrees Celsius for alerts.
    pub temp_alert_threshold: u8,
}

impl Default for AppConfig {
    /// The out-of-the-box configuration.
    fn default() -> (r: AppConfig)
        ensures
            r.theme@ == "system"@,
            !r.close_to_tray,
            !r.auto_start,
            r.fan_poll_interval_ms == 2000u64,
            r.last_thermal_profile == 0u8,
            r.last_aura_effect@ == "static"@,
            r.last_aura_color@ == "#ff0000"@,
            r.last_aura_speed@ == "medium"@,
            r.temp_alert_enabled,
            r.temp_alert_threshold == 90u8,
    {
        AppConfig {
            theme: "system".to_owned(),
            close_to_tray: false,
            auto_start: false,
            fan_poll_interval_ms: 2000,
            last_thermal_profile: 0,
            last_aura_effect: "static".to_owned(),
            last_aura_color: "#ff0000".to_owned(),
            last_aura_speed: "medium".to_owned(),
            temp_alert_enabled: true,
            temp_alert_threshold: 90,
        }
    }
}

/// A partial configuration update: only provided fields are applied.
#[derive(Debug)]
pub struct ConfigUpdate {
    /// New theme, if provided.
    pub theme: Option<String>,
    /// New close-to-tray setting, if provided.
    pub close_to_tray: Option<bool>,
    /// New auto-start setting, if provided.
    pub auto_start: Option<bool>,
    /// New polling interval, if provided.
    pub fan_poll_interval_ms: Option<u64>,
    /// New thermal profile index, if provided.
    pub last_thermal_profile: Option<u8>,
    /// New AURA effect name, if provided.
    pub last_aura_effect: Option<String>,
    /// New AURA color, if provided.
    pub last_aura_color: Option<String>,
    /// New AURA speed, if provided.
    pub last_aura_speed: Option<String>,
    /// New alert toggle, if provided.
    pub temp_alert_enabled: Option<bool>,
    /// New alert threshold, if provided.
    pub temp_alert_threshold: Option<u8>,
}

/// Merge a partial update into a configuration: each provided field
/// replaces the old value, each omitted field is kept unchanged.
pub fn apply_config_update(cfg: AppConfig, update: ConfigUpdate) -> (r: AppConfig)
    ensures
        r.theme@ == (match update.theme {
            Some(v) => v@,
            None => cfg.theme@,
        }),
        r.close_to_tray == (match update.close_to_tray {
            Some(v) => v,
            None => cfg.close_to_tray,
        }),
        r.auto_start == (match update.auto_start {
            Some(v) => v,
            None => cfg.auto_start,
        }),
        r.fan_poll_interval_ms == (match update.fan_poll_interval_ms {
            Some(v) => v,
            None => cfg.fan_poll_interval_ms,
        }),
        r.last_thermal_profile == (match update.last_thermal_profile {
            Some(v) => v,
            None => cfg.last_thermal_profile,
        }),
        r.last_aura_effect@ == (match update.last_aura_effect {
            Some(v) => v@,
            None => cfg.last_aura_effect@,
        }),
        r.last_aura_color@ == (match update.last_aura_color {
            Some(v) => v@,
            None => cfg.last_aura_color@,
        }),
        r.last_aura_speed@ == (match update.last_aura_speed {
            Some(v) => v@,
            None => cfg.last_aura_speed@,
        }),
        r.temp_alert_enabled == (match update.temp_alert_enabled {
            Some(v) => v,
            None => cfg.temp_alert_enabled,
        }),
        r.temp_alert_threshold == (match update.temp_alert_threshold {
            Some(v) => v,
            None => cfg.temp_alert_threshold,
        }),
{
    let mut cfg = cfg;
    match update.theme {
        Some(v) => {
            cfg.theme = v;
        },
        None => (),
    }
    match update.close_to_tray {
        Some(v) => {
            cfg.close_to_tray = v;
        },
        None => (),
    }
    match update.auto_start {
        Some(v) => {
            cfg.auto_start = v;
        },
        None => (),
    }
    match update.fan_poll_interval_ms {
        Some(v) => {
            cfg.fan_poll_interval_ms = v;
        },
        None => (),
    }
    match update.last_thermal_profile {
        Some(v) => {
            cfg.last_thermal_profile = v;
        },
        None => (),
    }
    match update.last_aura_effect {
        Some(v) => {
            cfg.last_aura_effect = v;
        },
        None => (),
    }
    match update.last_aura_color {
        Some(v) => {
            cfg.last_aura_color = v;
        },
        None => (),
    }
    match update.last_aura_speed {
        Some(v) => {
            cfg.last_aura_speed = v;
        },
        None => (),
    }
    match update.temp_alert_enabled {
        Some(v) => {
            cfg.temp_alert_enabled = v;
        },
        None => (),
    }
    match update.temp_alert_threshold {
        Some(v) => {
            cfg.temp_alert_threshold = v;
        },
        None => (),
    }
    cfg
}

} // verus!
