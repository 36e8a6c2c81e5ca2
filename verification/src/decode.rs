//! Bit-level decoding of Super I/O sensor registers.
//!
//! A fan tachometer exposes a 16-bit count of controller clock ticks between
//! revolution edges; `rpm_from_count` turns it into revolutions per minute.
//! A temperature sensor exposes a signed 8-bit value in whole degrees
//! Celsius, optionally refined by a half-degree fraction bit; temperatures
//! are carried in half-degree units so that no floating point is needed.

use vstd::prelude::*;

verus! {

/// Tachometer clock constant: RPM = 1,350,000 / count.
pub const TACH_CLOCK: u32 = 1_350_000;

/// RPM decoded from a 16-bit tachometer count. A count of 0 or 0xFFFF is
/// the controller's sentinel for a stalled or absent fan and maps to 0 RPM.
pub open spec fn spec_rpm_from_count(count: u16) -> u32 {
    if count == 0 || count == 0xFFFF {
        0u32
    } else {
        (1_350_000int / count as int) as u32
    }
}

/// Decode a fan tachometer count into RPM.
pub fn rpm_from_count(count: u16) -> (rpm: u32)
    ensures
        rpm == spec_rpm_from_count(count),
        count != 0 && count != 0xFFFF ==> rpm == 1_350_000int / count as int,
        count == 0 || count == 0xFFFF ==> rpm == 0,
{
    if count == 0 || count == 0xFFFF {
        0
    } else {
        TACH_CLOCK / (count as u32)
    }
}

/// A 16-bit tachometer count assembled from its high and low register bytes.
pub open spec fn spec_count_from_bytes(high: u8, low: u8) -> u16 {
    (high as int * 256 + low as int) as u16
}

/// Assemble a 16-bit tachometer count from its high and low register bytes.
pub fn count_from_bytes(high: u8, low: u8) -> (count: u16)
    ensures
        count == spec_count_from_bytes(high, low),
        count as int == high as int * 256 + low as int,
{
    (high as u16) * 256 + (low as u16)
}

/// The signed interpretation of a raw 8-bit register value.
pub open spec fn spec_signed(raw: u8) -> int {
    if raw < 128 {
        raw as int
    } else {
        raw as int - 256
    }
}

/// A temperature in half-degree Celsius units: twice the signed whole-degree
/// register value, plus one if the half-degree fraction bit is set.
pub open spec fn spec_temp_half(raw: u8, frac_bit: bool) -> int {
    2 * spec_signed(raw) + if frac_bit { 1int } else { 0int }
}

/// Decode a temperature register into half-degree Celsius units.
/// `frac_bit` is the 0.5 degree refinement bit of the secondary register.
pub fn temp_half_from_raw(raw: u8, frac_bit: bool) -> (h: i16)
    ensures
        h as int == spec_temp_half(raw, frac_bit),
{
    let signed: i16 = if raw < 128 {
        raw as i16
    } else {
        raw as i16 - 256
    };
    2 * signed + if frac_bit { 1 } else { 0 }
}

/// Whether a half-degree temperature is plausible: within [-40, 125] degrees
/// Celsius. Readings outside this window are garbage from an unpopulated
/// channel and are discarded, not reported.
pub open spec fn spec_temp_in_range(h: int) -> bool {
    -80 <= h && h <= 250
}

/// Range check for a half-degree temperature.
pub fn temp_in_range(h: i16) -> (b: bool)
    ensures
        b == spec_temp_in_range(h as int),
{
    -80 <= h && h <= 250
}

/// The RPM formula: for a count outside the two sentinels the RPM is the
/// integer quotient 1,350,000 / count; for the sentinels it is zero.
pub proof fn lemma_rpm_formula(count: u16)
    ensures
        count != 0 && count != 0xFFFF ==> spec_rpm_from_count(count) == 1_350_000int / count as int,
        count == 0 || count == 0xFFFF ==> spec_rpm_from_count(count) == 0,
{
}

/// The temperature formula: the half-degree value is twice the signed
/// register value plus the fraction bit, and it is reportable exactly when
/// the decoded temperature lies within [-40, 125] degrees Celsius.
pub proof fn lemma_temp_formula(raw: u8, frac_bit: bool)
    ensures
        spec_temp_half(raw, frac_bit) == 2 * spec_signed(raw) + if frac_bit { 1int } else { 0int },
        spec_temp_in_range(spec_temp_half(raw, frac_bit)) <==> -40 * 2 <= spec_temp_half(raw, frac_bit)
            && spec_temp_half(raw, frac_bit) <= 125 * 2,
{
}

} // verus!
