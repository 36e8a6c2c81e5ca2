//! ASUS WMI backend selection and the request/decode rules of the
//! backend-agnostic operations.
//!
//! One of three mutually exclusive management interfaces binds at connect
//! time: the desktop management class, the laptop ACPI-WMI class, or the
//! sensor-only class. The COM calls themselves are performed by the
//! embedding application on its dedicated worker thread; this module
//! decides, as pure functions, which backend a set of probe results
//! selects, which method call an operation translates to on the bound
//! backend, and what its reply means.

use vstd::prelude::*;

use crate::error::NoCrateError;

verus! {

/// DSTS device ID of the CPU fan tachometer.
pub const CPU_FAN_SPEED: u32 = 0x0011_0013;

/// DSTS device ID of the GPU / first chassis fan tachometer.
pub const GPU_FAN_SPEED: u32 = 0x0011_0014;

/// DSTS device ID of the middle / second chassis fan tachometer.
pub const MID_FAN_SPEED: u32 = 0x0011_0031;

/// Device ID of the throttle thermal policy (the overall profile).
pub const THROTTLE_THERMAL_POLICY: u32 = 0x0012_0075;

/// Device ID of the CPU fan-curve data.
pub const CPU_FAN_CURVE: u32 = 0x0011_0024;

/// Device ID of the GPU fan-curve data.
pub const GPU_FAN_CURVE: u32 = 0x0011_0025;

/// Device ID of the middle fan-curve data.
pub const MID_FAN_CURVE: u32 = 0x0011_0032;

/// The detected ASUS WMI backend, fixed for a connection's lifetime.
#[derive(Debug, Clone)]
pub enum AsusWmiBackend {
    /// Laptop ACPI-WMI class, methods DSTS/DEVS.
    Laptop {
        /// Resolved WMI instance path.
        instance_path: String,
    },
    /// Desktop management class, methods device_status/device_ctrl.
    Desktop {
        /// Resolved WMI instance path.
        instance_path: String,
    },
    /// Sensor-only class; read-only fan and temperature data.
    AsusHW {
        /// Resolved WMI instance path.
        instance_path: String,
    },
}

impl AsusWmiBackend {
    /// Human-readable label for log output.
    pub fn label(&self) -> (r: &str)
        ensures
            r@ == match self {
                AsusWmiBackend::Laptop { .. } => "Laptop (ASUSATKWMI_WMNB)"@,
                AsusWmiBackend::Desktop { .. } => "Desktop (ASUSManagement)"@,
                AsusWmiBackend::AsusHW { .. } => "Desktop (ASUSHW Sensors)"@,
            },
    {
        match self {
            AsusWmiBackend::Laptop { .. } => "Laptop (ASUSATKWMI_WMNB)",
            AsusWmiBackend::Desktop { .. } => "Desktop (ASUSManagement)",
            AsusWmiBackend::AsusHW { .. } => "Desktop (ASUSHW Sensors)",
        }
    }

    /// The raw backend type string for frontend consumption.
    pub fn backend_type(&self) -> (r: &str)
        ensures
            r@ == match self {
                AsusWmiBackend::Laptop { .. } => "laptop"@,
                AsusWmiBackend::Desktop { .. } => "desktop"@,
                AsusWmiBackend::AsusHW { .. } => "asushw"@,
            },
    {
        match self {
            AsusWmiBackend::Laptop { .. } => "laptop",
            AsusWmiBackend::Desktop { .. } => "desktop",
            AsusWmiBackend::AsusHW { .. } => "asushw",
        }
    }
}

/// A typed WMI method parameter value.
#[derive(Debug, Clone)]
pub enum WmiParam {
    /// 8-bit unsigned integer.
    U8(u8),
    /// 32-bit unsigned integer.
    U32(u32),
    /// String value.
    Str(String),
}

/// One WMI method invocation, fully determined: the instance path, the
/// method name and the named parameters to fill in.
#[derive(Debug, Clone)]
pub struct WmiMethodCall {
    /// WMI object path the method is invoked on.
    pub object_path: String,
    /// Method name.
    pub method: String,
    /// Named input parameters, in order.
    pub params: Vec<(String, WmiParam)>,
}

/// How to turn a method's output object into the operation's u32 result.
#[derive(Debug, Clone)]
pub enum WmiResultRule {
    /// Extract this named property as the result.
    Property(String),
    /// Ignore the output and report the success sentinel 1 (the desktop
    /// control method returns no usable status).
    ConstantOne,
}

/// A planned operation: the call to make and how to read its reply.
#[derive(Debug, Clone)]
pub struct WmiPlan {
    /// The method invocation.
    pub call: WmiMethodCall,
    /// How the reply becomes the operation's result.
    pub result: WmiResultRule,
}

/// The outcome of probing the three ASUS WMI classes, in the order the
/// connection probes them.
pub struct BackendProbes {
    /// First instance path of the desktop management class, if any.
    pub desktop_instance: Option<String>,
    /// First instance path of the laptop class, if enumeration found one.
    pub laptop_instance: Option<String>,
    /// Whether the laptop class definition exists at all (fallback when
    /// enumeration found no instance).
    pub laptop_class_exists: bool,
    /// First instance path of the sensor-only class, if any.
    pub asushw_instance: Option<String>,
}

/// Which backend a set of probe outcomes selects, by presence alone.
#[derive(Debug, Clone, Copy, PartialEq, Eq, Structural)]
pub enum BackendChoice {
    /// Desktop management class had an instance.
    Desktop,
    /// Laptop class had an instance.
    Laptop,
    /// Laptop class exists; its conventional instance path is assumed.
    LaptopConventional,
    /// Only the sensor-only class answered.
    AsusHW,
    /// No supported class answered.
    NoneFound,
}

/// The backend-selection rule: desktop first, then laptop (enumerated,
/// then conventional path), then the sensor-only class.
pub open spec fn spec_backend_choice(
    desktop: bool,
    laptop_inst: bool,
    laptop_class: bool,
    asushw: bool,
) -> BackendChoice {
    if desktop {
        BackendChoice::Desktop
    } else if laptop_inst {
        BackendChoice::Laptop
    } else if laptop_class {
        BackendChoice::LaptopConventional
    } else if asushw {
        BackendChoice::AsusHW
    } else {
        BackendChoice::NoneFound
    }
}

/// Select the backend for a set of probe outcomes.
///
/// Exactly one backend binds, decided by presence in fixed order; a probe
/// set where no class answered is a terminal failure. The connection never
/// re-evaluates the choice.
pub fn select_backend(probes: BackendProbes) -> (r: Result<AsusWmiBackend, NoCrateError>)
    ensures
        probes.desktop_instance matches Some(p) ==> (r matches Ok(b) && b matches
            AsusWmiBackend::Desktop { instance_path } && instance_path@ == p@),
        probes.laptop_instance matches Some(p) ==> (probes.desktop_instance is None ==> (r matches
            Ok(b) && b matches AsusWmiBackend::Laptop { instance_path } && instance_path@ == p@)),
        probes.desktop_instance is None && probes.laptop_instance is None
            && probes.laptop_class_exists ==> (r matches Ok(b) && b matches AsusWmiBackend::Laptop {
            instance_path } && instance_path@
            == "ASUSATKWMI_WMNB.InstanceName='ACPI\\\\ATK0110\\\\0_0'"@),
        probes.asushw_instance matches Some(p) ==> (probes.desktop_instance is None
            && probes.laptop_instance is None && !probes.laptop_class_exists ==> (r matches Ok(b)
            && b matches AsusWmiBackend::AsusHW { instance_path } && instance_path@ == p@)),
        probes.desktop_instance is None && probes.laptop_instance is None
            && !probes.laptop_class_exists && probes.asushw_instance is None ==> r is Err,
        r matches Err(e) ==> e is Wmi,
{
    match probes.desktop_instance {
        Some(path) => {
            return Ok(AsusWmiBackend::Desktop { instance_path: path });
        },
        None => (),
    }
    match probes.laptop_instance {
        Some(path) => {
            return Ok(AsusWmiBackend::Laptop { instance_path: path });
        },
        None => (),
    }
    if probes.laptop_class_exists {
        return Ok(
            AsusWmiBackend::Laptop {
                instance_path: "ASUSATKWMI_WMNB.InstanceName='ACPI\\\\ATK0110\\\\0_0'".to_owned(),
            },
        );
    }
    match probes.asushw_instance {
        Some(path) => {
            return Ok(AsusWmiBackend::AsusHW { instance_path: path });
        },
        None => (),
    }
    Err(
        NoCrateError::Wmi(
            "no supported ASUS WMI interface found (ASUSManagement / ASUSATKWMI_WMNB / ASUSHW)".to_owned(),
        ),
    )
}

/// Backend probing is deterministic: two probe sets with the same presence
/// of each class select the same backend choice, so repeated connects
/// under identical conditions always bind the same backend.
pub proof fn lemma_backend_choice_deterministic(
    d1: bool,
    li1: bool,
    lc1: bool,
    a1: bool,
    d2: bool,
    li2: bool,
    lc2: bool,
    a2: bool,
)
    requires
        d1 == d2,
        li1 == li2,
        lc1 == lc2,
        a1 == a2,
    ensures
        spec_backend_choice(d1, li1, lc1, a1) == spec_backend_choice(d2, li2, lc2, a2),
{
}

/// Plan a device-status read (the laptop DSTS operation).
///
/// On the laptop backend this calls DSTS with Device_ID and reads
/// Device_Status; on the desktop backend it calls device_status with
/// device_id and reads ctrl_param. The sensor-only backend rejects the
/// operation — it has no status methods — and never panics.
pub fn dsts_request(backend: &AsusWmiBackend, device_id: u32) -> (r: Result<WmiPlan, NoCrateError>)
    ensures
        backend matches AsusWmiBackend::Laptop { instance_path } ==> r matches Ok(plan) && {
            &&& plan.call.object_path@ == instance_path@
            &&& plan.call.method@ == "DSTS"@
            &&& plan.call.params@.len() == 1
            &&& plan.call.params@[0].0@ == "Device_ID"@
            &&& plan.call.params@[0].1 == WmiParam::U32(device_id)
            &&& plan.result matches WmiResultRule::Property(p) && p@ == "Device_Status"@
        },
        backend matches AsusWmiBackend::Desktop { instance_path } ==> r matches Ok(plan) && {
            &&& plan.call.object_path@ == instance_path@
            &&& plan.call.method@ == "device_status"@
            &&& plan.call.params@.len() == 1
            &&& plan.call.params@[0].0@ == "device_id"@
            &&& plan.call.params@[0].1 == WmiParam::U32(device_id)
            &&& plan.result matches WmiResultRule::Property(p) && p@ == "ctrl_param"@
        },
        backend is AsusHW <==> r is Err,
        r matches Err(e) ==> e is Wmi,
{
    match backend {
        AsusWmiBackend::Laptop { instance_path } => {
            let mut params: Vec<(String, WmiParam)> = Vec::new();
            params.push(("Device_ID".to_owned(), WmiParam::U32(device_id)));
            Ok(
                WmiPlan {
                    call: WmiMethodCall {
                        object_path: instance_path.as_str().to_owned(),
                        method: "DSTS".to_owned(),
                        params,
                    },
                    result: WmiResultRule::Property("Device_Status".to_owned()),
                },
            )
        },
        AsusWmiBackend::Desktop { instance_path } => {
            let mut params: Vec<(String, WmiParam)> = Vec::new();
            params.push(("device_id".to_owned(), WmiParam::U32(device_id)));
            Ok(
                WmiPlan {
                    call: WmiMethodCall {
                        object_path: instance_path.as_str().to_owned(),
                        method: "device_status".to_owned(),
                        params,
                    },
                    result: WmiResultRule::Property("ctrl_param".to_owned()),
                },
            )
        },
        AsusWmiBackend::AsusHW { .. } => Err(
            NoCrateError::Wmi("the sensor-only backend does not support device_status".to_owned()),
        ),
    }
}

/// Plan a device-control write (the laptop DEVS operation).
///
/// On the laptop backend this calls DEVS with Device_ID and
/// Control_Status and reads Device_Status back; on the desktop backend it
/// calls device_ctrl, whose reply carries no usable status, so the result
/// is the success sentinel 1. The sensor-only backend rejects the
/// operation and never panics.
pub fn devs_request(backend: &AsusWmiBackend, device_id: u32, control: u32) -> (r: Result<
    WmiPlan,
    NoCrateError,
>)
    ensures
        backend matches AsusWmiBackend::Laptop { instance_path } ==> r matches Ok(plan) && {
            &&& plan.call.object_path@ == instance_path@
            &&& plan.call.method@ == "DEVS"@
            &&& plan.call.params@.len() == 2
            &&& plan.call.params@[0].0@ == "Device_ID"@
            &&& plan.call.params@[0].1 == WmiParam::U32(device_id)
            &&& plan.call.params@[1].0@ == "Control_Status"@
            &&& plan.call.params@[1].1 == WmiParam::U32(control)
            &&& plan.result matches WmiResultRule::Property(p) && p@ == "Device_Status"@
        },
        backend matches AsusWmiBackend::Desktop { instance_path } ==> r matches Ok(plan) && {
            &&& plan.call.object_path@ == instance_path@
            &&& plan.call.method@ == "device_ctrl"@
            &&& plan.call.params@.len() == 2
            &&& plan.call.params@[0].0@ == "device_id"@
            &&& plan.call.params@[0].1 == WmiParam::U32(device_id)
            &&& plan.call.params@[1].0@ == "ctrl_param"@
            &&& plan.call.params@[1].1 == WmiParam::U32(control)
            &&& plan.result is ConstantOne
        },
        backend is AsusHW <==> r is Err,
        r matches Err(e) ==> e is Wmi,
{
    match backend {
        AsusWmiBackend::Laptop { instance_path } => {
            let mut params: Vec<(String, WmiParam)> = Vec::new();
            params.push(("Device_ID".to_owned(), WmiParam::U32(device_id)));
            params.push(("Control_Status".to_owned(), WmiParam::U32(control)));
            Ok(
                WmiPlan {
                    call: WmiMethodCall {
                        object_path: instance_path.as_str().to_owned(),
                        method: "DEVS".to_owned(),
                        params,
                    },
                    result: WmiResultRule::Property("Device_Status".to_owned()),
                },
            )
        },
        AsusWmiBackend::Desktop { instance_path } => {
            let mut params: Vec<(String, WmiParam)> = Vec::new();
            params.push(("device_id".to_owned(), WmiParam::U32(device_id)));
            params.push(("ctrl_param".to_owned(), WmiParam::U32(control)));
            Ok(
                WmiPlan {
                    call: WmiMethodCall {
                        object_path: instance_path.as_str().to_owned(),
                        method: "device_ctrl".to_owned(),
                        params,
                    },
                    result: WmiResultRule::ConstantOne,
                },
            )
        },
        AsusWmiBackend::AsusHW { .. } => Err(
            NoCrateError::Wmi("the sensor-only backend does not support device_ctrl".to_owned()),
        ),
    }
}

/// Identifies which fan header to query or control.
#[derive(Debug, Clone, Copy, PartialEq, Eq, Structural)]
pub enum FanTarget {
    /// CPU fan header.
    Cpu,
    /// GPU / first chassis fan header.
    Gpu,
    /// Middle / second chassis fan header.
    Mid,
}

impl FanTarget {
    /// DSTS device ID for reading this fan's RPM.
    pub fn speed_device_id(self) -> (r: u32)
        ensures
            self is Cpu ==> r == 0x0011_0013u32,
            self is Gpu ==> r == 0x0011_0014u32,
            self is Mid ==> r == 0x0011_0031u32,
    {
        match self {
            FanTarget::Cpu => CPU_FAN_SPEED,
            FanTarget::Gpu => GPU_FAN_SPEED,
            FanTarget::Mid => MID_FAN_SPEED,
        }
    }

    /// Device ID for this fan's curve data.
    pub fn curve_device_id(self) -> (r: u32)
        ensures
            self is Cpu ==> r == 0x0011_0024u32,
            self is Gpu ==> r == 0x0011_0025u32,
            self is Mid ==> r == 0x0011_0032u32,
    {
        match self {
            FanTarget::Cpu => CPU_FAN_CURVE,
            FanTarget::Gpu => GPU_FAN_CURVE,
            FanTarget::Mid => MID_FAN_CURVE,
        }
    }
}

/// The RPM carried by a raw fan status word: its lower 16 bits (the upper
/// bits may carry status flags).
pub fn fan_speed_from_status(raw: u32) -> (rpm: u32)
    ensures
        rpm == raw & 0xFFFFu32,
{
    raw & 0xFFFF
}

/// Snapshot of a single fan header.
#[derive(Debug, Clone, Copy, PartialEq, Eq, Structural)]
pub struct FanInfo {
    /// Which header.
    pub target: FanTarget,
    /// Revolutions per minute.
    pub rpm: u32,
}

/// The fan-info list for the three status words, skipping failed reads:
/// CPU, GPU, middle, in that order, each reduced to its lower 16 bits.
pub open spec fn spec_fan_infos(cpu: Option<u32>, gpu: Option<u32>, mid: Option<u32>) -> Seq<
    FanInfo,
> {
    let s0 = Seq::<FanInfo>::empty();
    let s1 = match cpu {
        Some(raw) => s0.push(FanInfo { target: FanTarget::Cpu, rpm: raw & 0xFFFFu32 }),
        None => s0,
    };
    let s2 = match gpu {
        Some(raw) => s1.push(FanInfo { target: FanTarget::Gpu, rpm: raw & 0xFFFFu32 }),
        None => s1,
    };
    match mid {
        Some(raw) => s2.push(FanInfo { target: FanTarget::Mid, rpm: raw & 0xFFFFu32 }),
        None => s2,
    }
}

/// Combine the per-target status reads into the fan-speed list.
///
/// A target whose read failed (None) is silently skipped, never reported;
/// at most three entries come back, in the fixed target order.
pub fn collect_fan_speeds(cpu: Option<u32>, gpu: Option<u32>, mid: Option<u32>) -> (r: Vec<
    FanInfo,
>)
    ensures
        r@ == spec_fan_infos(cpu, gpu, mid),
        r@.len() <= 3,
{
    let mut out: Vec<FanInfo> = Vec::new();
    match cpu {
        Some(raw) => out.push(FanInfo { target: FanTarget::Cpu, rpm: raw & 0xFFFF }),
        None => (),
    }
    match gpu {
        Some(raw) => out.push(FanInfo { target: FanTarget::Gpu, rpm: raw & 0xFFFF }),
        None => (),
    }
    match mid {
        Some(raw) => out.push(FanInfo { target: FanTarget::Mid, rpm: raw & 0xFFFF }),
        None => (),
    }
    out
}

/// The fan-speed list never includes a target whose status read failed,
/// and holds at most three entries.
pub proof fn lemma_fan_speeds_skip_failed(cpu: Option<u32>, gpu: Option<u32>, mid: Option<u32>)
    ensures
        spec_fan_infos(cpu, gpu, mid).len() <= 3,
        cpu is None ==> forall|k: int|
            0 <= k < spec_fan_infos(cpu, gpu, mid).len() ==> !(#[trigger] spec_fan_infos(
                cpu,
                gpu,
                mid,
            )[k].target is Cpu),
        gpu is None ==> forall|k: int|
            0 <= k < spec_fan_infos(cpu, gpu, mid).len() ==> !(#[trigger] spec_fan_infos(
                cpu,
                gpu,
                mid,
            )[k].target is Gpu),
        mid is None ==> forall|k: int|
            0 <= k < spec_fan_infos(cpu, gpu, mid).len() ==> !(#[trigger] spec_fan_infos(
                cpu,
                gpu,
                mid,
            )[k].target is Mid),
{
}

/// ASUS thermal-profile presets, as raw values {0, 1, 2}. Any other raw
/// value is a decode error, not a new variant.
#[derive(Debug, Clone, Copy, PartialEq, Eq, Structural)]
pub enum ThermalProfile {
    /// Default balanced mode (raw 0).
    Standard,
    /// Maximum performance / fan boost (raw 1).
    Performance,
    /// Quieter fans at the cost of thermals (raw 2).
    Silent,
}

impl ThermalProfile {
    /// Convert to the raw DEVS control value.
    pub fn to_raw(self) -> (r: u32)
        ensures
            self is Standard ==> r == 0,
            self is Performance ==> r == 1,
            self is Silent ==> r == 2,
    {
        match self {
            ThermalProfile::Standard => 0,
            ThermalProfile::Performance => 1,
            ThermalProfile::Silent => 2,
        }
    }

    /// Parse from a raw DSTS status value; only the low byte counts.
    pub fn from_raw(value: u32) -> (r: Option<ThermalProfile>)
        ensures
            value & 0xFFu32 == 0 ==> r == Some(ThermalProfile::Standard),
            value & 0xFFu32 == 1 ==> r == Some(ThermalProfile::Performance),
            value & 0xFFu32 == 2 ==> r == Some(ThermalProfile::Silent),
            value & 0xFFu32 >= 3 ==> r is None,
    {
        let low = value & 0xFF;
        if low == 0 {
            Some(ThermalProfile::Standard)
        } else if low == 1 {
            Some(ThermalProfile::Performance)
        } else if low == 2 {
            Some(ThermalProfile::Silent)
        } else {
            None
        }
    }
}

/// Whether the bound backend is the desktop management class.
pub fn is_desktop_backend(backend: &AsusWmiBackend) -> (r: bool)
    ensures
        r == backend is Desktop,
{
    match backend {
        AsusWmiBackend::Desktop { .. } => true,
        _ => false,
    }
}

/// Number of control points in an ASUS fan curve.
pub const FAN_CURVE_POINTS: usize = 8;

/// A single temperature to duty-cycle mapping point.
#[derive(Debug, Clone, Copy, PartialEq, Eq, Structural)]
pub struct FanCurvePoint {
    /// Temperature threshold in degrees Celsius (0-100).
    pub temp_c: u8,
    /// Fan duty-cycle percentage (0-100).
    pub duty_pct: u8,
}

/// A complete fan curve with [`FAN_CURVE_POINTS`] points, sorted by
/// ascending temperature; the controller interpolates between them.
#[derive(Debug, Clone, Copy)]
pub struct FanCurve {
    /// Which fan header the curve drives.
    pub target: FanTarget,
    /// The temperature/duty points.
    pub points: [FanCurvePoint; 8],
}

impl FanCurve {
    /// A sensible default curve: a gentle ramp from 30% duty at 30
    /// degrees to 100% at 90 degrees, sorted by ascending temperature.
    pub fn default_for(target: FanTarget) -> (r: FanCurve)
        ensures
            r.target == target,
            r.points@.len() == 8,
            r.points@[0] == (FanCurvePoint { temp_c: 30u8, duty_pct: 30u8 }),
            r.points@[1] == (FanCurvePoint { temp_c: 40u8, duty_pct: 35u8 }),
            r.points@[2] == (FanCurvePoint { temp_c: 50u8, duty_pct: 45u8 }),
            r.points@[3] == (FanCurvePoint { temp_c: 60u8, duty_pct: 55u8 }),
            r.points@[4] == (FanCurvePoint { temp_c: 70u8, duty_pct: 65u8 }),
            r.points@[5] == (FanCurvePoint { temp_c: 75u8, duty_pct: 75u8 }),
            r.points@[6] == (FanCurvePoint { temp_c: 80u8, duty_pct: 85u8 }),
            r.points@[7] == (FanCurvePoint { temp_c: 90u8, duty_pct: 100u8 }),
            forall|i: int, j: int|
                0 <= i < j < 8 ==> r.points@[i].temp_c < r.points@[j].temp_c,
    {
        FanCurve {
            target,
            points: [
                FanCurvePoint { temp_c: 30, duty_pct: 30 },
                FanCurvePoint { temp_c: 40, duty_pct: 35 },
                FanCurvePoint { temp_c: 50, duty_pct: 45 },
                FanCurvePoint { temp_c: 60, duty_pct: 55 },
                FanCurvePoint { temp_c: 70, duty_pct: 65 },
                FanCurvePoint { temp_c: 75, duty_pct: 75 },
                FanCurvePoint { temp_c: 80, duty_pct: 85 },
                FanCurvePoint { temp_c: 90, duty_pct: 100 },
            ],
        }
    }
}

/// Decode the thermal profile from a raw status word: the low byte must
/// be a known preset, anything else is a typed decode error.
pub fn thermal_profile_from_status(raw: u32) -> (r: Result<ThermalProfile, NoCrateError>)
    ensures
        raw & 0xFFu32 == 0 ==> r == Ok::<ThermalProfile, NoCrateError>(ThermalProfile::Standard),
        raw & 0xFFu32 == 1 ==> r == Ok::<ThermalProfile, NoCrateError>(ThermalProfile::Performance),
        raw & 0xFFu32 == 2 ==> r == Ok::<ThermalProfile, NoCrateError>(ThermalProfile::Silent),
        raw & 0xFFu32 >= 3 ==> (r matches Err(e) && e is Wmi),
{
    match ThermalProfile::from_raw(raw) {
        Some(p) => Ok(p),
        None => Err(NoCrateError::Wmi("unknown thermal-profile raw value".to_owned())),
    }
}

} // verus!
