//! Common sensor reading types shared by every Super I/O chip family.

use vstd::prelude::*;

verus! {

/// One fan tachometer reading, produced fresh per snapshot.
/// `rpm == 0` means a stalled or unconnected fan, never an error.
#[derive(Debug, Clone)]
pub struct FanReading {
    /// Fan name, such as "CPU Fan" or "Chassis #1".
    pub name: String,
    /// Revolutions per minute; 0 for a stalled or absent fan.
    pub rpm: u32,
    /// Physical tachometer channel on the Super I/O chip.
    pub channel: u8,
}

/// One temperature sensor reading, produced fresh per snapshot.
/// The value is carried in half-degree Celsius units so that the optional
/// half-degree fraction bit needs no floating point.
#[derive(Debug, Clone)]
pub struct TempReading {
    /// Sensor name, such as "CPU" or "Mainboard".
    pub name: String,
    /// Temperature in half-degree Celsius units (50 means 25.0 degrees C).
    pub temp_half_c: i16,
    /// Physical sensor channel on the Super I/O chip.
    pub channel: u8,
}

/// An atomic snapshot of every fan and temperature sensor of one chip.
#[derive(Debug, Clone)]
pub struct SioSnapshot {
    /// All fan readings.
    pub fans: Vec<FanReading>,
    /// All plausible temperature readings.
    pub temps: Vec<TempReading>,
    /// Model name of the chip the snapshot came from.
    pub chip_name: String,
}

/// Availability of the Super I/O monitor, reported without touching
/// hardware.
#[derive(Debug, Clone)]
pub struct SioStatus {
    /// Whether a supported chip was detected and its driver is open.
    pub available: bool,
    /// The detected chip model, when available.
    pub chip_name: Option<String>,
    /// The initialization error, when unavailable.
    pub error: Option<String>,
}

/// The status reported when Super I/O monitoring is unavailable.
pub fn unavailable_status(error: &str) -> (r: SioStatus)
    ensures
        !r.available,
        r.chip_name is None,
        r.error matches Some(e) && e@ == error@,
{
    SioStatus { available: false, chip_name: None, error: Some(error.to_owned()) }
}

} // verus!
