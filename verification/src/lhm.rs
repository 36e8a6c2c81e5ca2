//! LibreHardwareMonitor sensor data: status and grouping rules.
//!
//! The embedding application queries the monitor's WMI namespace and
//! hands the rows over as plain values; sensor magnitudes are carried in
//! thousandths of their unit so that no floating point enters the
//! library. This module decides availability and groups sensors by type.

use vstd::prelude::*;

verus! {

/// LibreHardwareMonitor availability.
#[derive(Debug)]
pub enum LhmStatus {
    /// The namespace answers and has sensors.
    Available {
        /// How many sensor rows the query returned.
        sensor_count: usize,
    },
    /// The namespace answers but reports no sensors.
    NoSensors,
    /// The namespace is not accessible (not installed or not running).
    Unavailable,
}

/// One sensor row, magnitudes in thousandths of the type's unit.
#[derive(Debug)]
pub struct LhmSensor {
    /// Unique sensor identifier.
    pub identifier: String,
    /// Human-readable name.
    pub name: String,
    /// Sensor type string: "Temperature", "Fan", "Control", "Voltage",
    /// "Clock", "Load" or "Power" (others are ignored by the grouping).
    pub sensor_type: String,
    /// Current value, in thousandths.
    pub value_milli: i64,
    /// Minimum observed value, in thousandths.
    pub min_milli: i64,
    /// Maximum observed value, in thousandths.
    pub max_milli: i64,
    /// Parent hardware identifier.
    pub parent: String,
}

/// Sensors grouped by type.
#[derive(Debug)]
pub struct LhmSensorSnapshot {
    /// Temperature sensors.
    pub temperatures: Vec<LhmSensor>,
    /// Fan tachometers.
    pub fans: Vec<LhmSensor>,
    /// Control (duty) channels.
    pub controls: Vec<LhmSensor>,
    /// Voltage rails.
    pub voltages: Vec<LhmSensor>,
    /// Clocks.
    pub clocks: Vec<LhmSensor>,
    /// Loads.
    pub loads: Vec<LhmSensor>,
    /// Power draws.
    pub powers: Vec<LhmSensor>,
}

/// Availability from the query outcome: an unreachable namespace is
/// unavailable; a reachable one is available exactly when the sensor
/// query succeeded with at least one row.
pub fn lhm_status_from_query(namespace_ok: bool, row_count: Option<usize>) -> (r: LhmStatus)
    ensures
        !namespace_ok ==> r is Unavailable,
        namespace_ok ==> match row_count {
            Some(n) => if n > 0 {
                r matches LhmStatus::Available { sensor_count } && sensor_count == n
            } else {
                r is NoSensors
            },
            None => r is Unavailable,
        },
{
    if !namespace_ok {
        return LhmStatus::Unavailable;
    }
    match row_count {
        Some(n) => {
            if n > 0 {
                LhmStatus::Available { sensor_count: n }
            } else {
                LhmStatus::NoSensors
            }
        },
        None => LhmStatus::Unavailable,
    }
}

/// The sensors of one type, in arrival order.
pub open spec fn spec_of_type(s: Seq<LhmSensor>, t: Seq<char>) -> Seq<LhmSensor>
    decreases s.len(),
{
    if s.len() == 0 {
        Seq::empty()
    } else if s.last().sensor_type@ == t {
        spec_of_type(s.drop_last(), t).push(s.last())
    } else {
        spec_of_type(s.drop_last(), t)
    }
}

/// Group sensors by their type string: each bucket is exactly the
/// sensors of its type, in arrival order; sensors of unknown types are
/// dropped.
pub fn group_sensors(sensors: Vec<LhmSensor>) -> (r: LhmSensorSnapshot)
    ensures
        r.temperatures@ == spec_of_type(sensors@, "Temperature"@),
        r.fans@ == spec_of_type(sensors@, "Fan"@),
        r.controls@ == spec_of_type(sensors@, "Control"@),
        r.voltages@ == spec_of_type(sensors@, "Voltage"@),
        r.clocks@ == spec_of_type(sensors@, "Clock"@),
        r.loads@ == spec_of_type(sensors@, "Load"@),
        r.powers@ == spec_of_type(sensors@, "Power"@),
{
    let ghost s0 = sensors@;
    let n0: usize = sensors.len();
    let mut sensors = sensors;
    let mut snapshot = LhmSensorSnapshot {
        temperatures: Vec::new(),
        fans: Vec::new(),
        controls: Vec::new(),
        voltages: Vec::new(),
        clocks: Vec::new(),
        loads: Vec::new(),
        powers: Vec::new(),
    };
    // Reverse once so that popping hands the rows back in arrival order.
    let mut rev: Vec<LhmSensor> = Vec::new();
    while sensors.len() > 0
        invariant
            rev@.len() + sensors@.len() == s0.len(),
            sensors@ == s0.take(sensors@.len() as int),
            forall|j: int| 0 <= j < rev@.len() ==> rev@[j] == s0[s0.len() - 1 - j],
        decreases sensors@.len(),
    {
        let ghost before = sensors@;
        match sensors.pop() {
            Some(s) => {
                proof {
                    assert(s == before.last());
                    assert(before.last() == s0[sensors@.len() as int]);
                    assert(sensors@ =~= s0.take(sensors@.len() as int));
                }
                rev.push(s);
            },
            None => (),
        }
    }
    proof {
        assert(s0.take(0) =~= Seq::<LhmSensor>::empty());
    }
    let mut done_exec: usize = 0;
    while rev.len() > 0
        invariant
            n0 == s0.len(),
            done_exec as int + rev@.len() == s0.len(),
            forall|j: int| 0 <= j < rev@.len() ==> rev@[j] == s0[s0.len() - 1 - j],
            snapshot.temperatures@ == spec_of_type(s0.take(done_exec as int), "Temperature"@),
            snapshot.fans@ == spec_of_type(s0.take(done_exec as int), "Fan"@),
            snapshot.controls@ == spec_of_type(s0.take(done_exec as int), "Control"@),
            snapshot.voltages@ == spec_of_type(s0.take(done_exec as int), "Voltage"@),
            snapshot.clocks@ == spec_of_type(s0.take(done_exec as int), "Clock"@),
            snapshot.loads@ == spec_of_type(s0.take(done_exec as int), "Load"@),
            snapshot.powers@ == spec_of_type(s0.take(done_exec as int), "Power"@),
        decreases rev@.len(),
    {
        let ghost rev_before = rev@;
        match rev.pop() {
            Some(s) => {
                proof {
                    assert(s == rev_before.last());
                    assert(rev_before.last() == s0[s0.len() - 1 - (rev_before.len() - 1)]);
                    assert(s == s0[done_exec as int]);
                    let prefix1 = s0.take(done_exec as int + 1);
                    assert(prefix1.drop_last() =~= s0.take(done_exec as int));
                    assert(prefix1.last() == s0[done_exec as int]);
                    reveal_strlit("Temperature");
                    reveal_strlit("Fan");
                    reveal_strlit("Control");
                    reveal_strlit("Voltage");
                    reveal_strlit("Clock");
                    reveal_strlit("Load");
                    reveal_strlit("Power");
                    // persistent distinctness facts: the reveal scope ends
                    // with this block, the assertions do not
                    assert("Temperature"@.len() == 11);
                    assert("Fan"@.len() == 3);
                    assert("Control"@.len() == 7);
                    assert("Voltage"@.len() == 7);
                    assert("Clock"@.len() == 5);
                    assert("Load"@.len() == 4);
                    assert("Power"@.len() == 5);
                    assert("Control"@[0] == 'C');
                    assert("Voltage"@[0] == 'V');
                    assert("Clock"@[0] == 'C');
                    assert("Power"@[0] == 'P');
                    assert("Control"@ != "Voltage"@);
                    assert("Clock"@ != "Power"@);
                }
                if crate::policy::str_eq(s.sensor_type.as_str(), "Temperature") {
                    snapshot.temperatures.push(s);
                } else if crate::policy::str_eq(s.sensor_type.as_str(), "Fan") {
                    snapshot.fans.push(s);
                } else if crate::policy::str_eq(s.sensor_type.as_str(), "Control") {
                    snapshot.controls.push(s);
                } else if crate::policy::str_eq(s.sensor_type.as_str(), "Voltage") {
                    snapshot.voltages.push(s);
                } else if crate::policy::str_eq(s.sensor_type.as_str(), "Clock") {
                    snapshot.clocks.push(s);
                } else if crate::policy::str_eq(s.sensor_type.as_str(), "Load") {
                    snapshot.loads.push(s);
                } else if crate::policy::str_eq(s.sensor_type.as_str(), "Power") {
                    snapshot.powers.push(s);
                }
            },
            None => (),
        }
        done_exec = done_exec + 1;
    }
    proof {
        assert(s0.take(s0.len() as int) =~= s0);
    }
    snapshot
}

} // verus!
