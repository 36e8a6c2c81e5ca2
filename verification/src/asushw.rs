//! ASUSHW sensor enumeration rules (the sensor-only backend).
//!
//! The sensor-only class enumerates sensors by index: a count, per-index
//! metadata (source group, type, data-type flag, name), a per-source
//! buffer refresh, and a per-index value read. Values whose data-type
//! flag marks micro-units are scaled down by 1,000,000; the scaling is
//! carried here as exact integer parts so that no floating point enters
//! the library.

use vstd::prelude::*;

use crate::backend::{AsusWmiBackend, WmiMethodCall, WmiParam};
use crate::error::NoCrateError;

verus! {

/// One sensor of the sensor-only backend.
#[derive(Debug)]
pub struct AsusHWSensor {
    /// Zero-based sensor index.
    pub index: u32,
    /// Human-readable name.
    pub name: String,
    /// "temperature" or "fan".
    pub sensor_type: String,
    /// Raw value as read; scale with `value_parts`.
    pub value_raw: u32,
    /// Internal source group (for the buffer refresh).
    pub source: u32,
    /// Internal data-type flag (3 = micro-units).
    pub data_type: u32,
}

impl AsusHWSensor {
    /// The value split into its integer part and its micro-unit
    /// remainder: for micro-unit sensors the raw value divided by
    /// 1,000,000 with remainder, for all others the raw value itself.
    pub fn value_parts(&self) -> (r: (u32, u32))
        ensures
            self.data_type == 3 ==> r.0 == self.value_raw / 1_000_000u32 && r.1 == self.value_raw
                % 1_000_000u32,
            self.data_type != 3 ==> r.0 == self.value_raw && r.1 == 0u32,
    {
        if self.data_type == 3 {
            (self.value_raw / 1_000_000, self.value_raw % 1_000_000)
        } else {
            (self.value_raw, 0)
        }
    }
}

/// The sensor-type string for a raw metadata type: 1 is a temperature, 2
/// is a fan, anything else is skipped.
pub open spec fn spec_sensor_type_name(stype: u32) -> Option<Seq<char>> {
    if stype == 1 {
        Some("temperature"@)
    } else if stype == 2 {
        Some("fan"@)
    } else {
        None
    }
}

/// Build one sensor from its metadata, with the value still unread.
/// Sensors of unknown type are skipped, not reported.
pub fn sensor_from_info(index: u32, source: u32, stype: u32, data_type: u32, name: String) -> (r:
    Option<AsusHWSensor>)
    ensures
        stype != 1 && stype != 2 ==> r is None,
        stype == 1 || stype == 2 ==> (r matches Some(s) && {
            &&& s.index == index
            &&& s.name@ == name@
            &&& Some(s.sensor_type@) == spec_sensor_type_name(stype)
            &&& s.value_raw == 0u32
            &&& s.source == source
            &&& s.data_type == data_type
        }),
{
    let type_str: &str = if stype == 1 {
        "temperature"
    } else if stype == 2 {
        "fan"
    } else {
        return None;
    };
    Some(
        AsusHWSensor {
            index,
            name,
            sensor_type: type_str.to_owned(),
            value_raw: 0,
            source,
            data_type,
        },
    )
}

/// The plan of one sensor-only method call: reject any other backend.
fn asushw_call(backend: &AsusWmiBackend, method: &str, params: Vec<(String, WmiParam)>) -> (r:
    Result<WmiMethodCall, NoCrateError>)
    ensures
        backend matches AsusWmiBackend::AsusHW { instance_path } ==> (r matches Ok(call) && {
            &&& call.object_path@ == instance_path@
            &&& call.method@ == method@
            &&& call.params@ == params@
        }),
        !(backend is AsusHW) ==> r is Err,
        r matches Err(e) ==> e is Wmi,
{
    match backend {
        AsusWmiBackend::AsusHW { instance_path } => Ok(
            WmiMethodCall {
                object_path: instance_path.as_str().to_owned(),
                method: method.to_owned(),
                params,
            },
        ),
        _ => Err(
            NoCrateError::Wmi("the bound backend is not the sensor-only interface".to_owned()),
        ),
    }
}

/// Plan the sensor-version query; its reply property is "Data".
pub fn sensor_version_request(backend: &AsusWmiBackend) -> (r: Result<WmiMethodCall, NoCrateError>)
    ensures
        backend matches AsusWmiBackend::AsusHW { instance_path } ==> (r matches Ok(call) && {
            &&& call.object_path@ == instance_path@
            &&& call.method@ == "sensor_get_version"@
            &&& call.params@.len() == 0
        }),
        !(backend is AsusHW) ==> r is Err,
        r matches Err(e) ==> e is Wmi,
{
    asushw_call(backend, "sensor_get_version", Vec::new())
}

/// Plan the sensor-count query; its reply property is "Data".
pub fn sensor_count_request(backend: &AsusWmiBackend) -> (r: Result<WmiMethodCall, NoCrateError>)
    ensures
        backend matches AsusWmiBackend::AsusHW { instance_path } ==> (r matches Ok(call) && {
            &&& call.object_path@ == instance_path@
            &&& call.method@ == "sensor_get_number"@
            &&& call.params@.len() == 0
        }),
        !(backend is AsusHW) ==> r is Err,
        r matches Err(e) ==> e is Wmi,
{
    asushw_call(backend, "sensor_get_number", Vec::new())
}

/// Plan the metadata query of one sensor index; the reply carries the
/// Source, Type, Data_Type and Name properties.
pub fn sensor_info_request(backend: &AsusWmiBackend, index: u32) -> (r: Result<
    WmiMethodCall,
    NoCrateError,
>)
    ensures
        backend matches AsusWmiBackend::AsusHW { instance_path } ==> (r matches Ok(call) && {
            &&& call.object_path@ == instance_path@
            &&& call.method@ == "sensor_get_info"@
            &&& call.params@.len() == 1
            &&& call.params@[0].0@ == "Index"@
            &&& call.params@[0].1 == WmiParam::U32(index)
        }),
        !(backend is AsusHW) ==> r is Err,
        r matches Err(e) ==> e is Wmi,
{
    let mut params: Vec<(String, WmiParam)> = Vec::new();
    params.push(("Index".to_owned(), WmiParam::U32(index)));
    asushw_call(backend, "sensor_get_info", params)
}

/// Plan the buffer refresh of one source group; the reply is ignored.
pub fn update_buffer_request(backend: &AsusWmiBackend, source: u32) -> (r: Result<
    WmiMethodCall,
    NoCrateError,
>)
    ensures
        backend matches AsusWmiBackend::AsusHW { instance_path } ==> (r matches Ok(call) && {
            &&& call.object_path@ == instance_path@
            &&& call.method@ == "sensor_update_buffer"@
            &&& call.params@.len() == 1
            &&& call.params@[0].0@ == "Source"@
            &&& call.params@[0].1 == WmiParam::U32(source)
        }),
        !(backend is AsusHW) ==> r is Err,
        r matches Err(e) ==> e is Wmi,
{
    let mut params: Vec<(String, WmiParam)> = Vec::new();
    params.push(("Source".to_owned(), WmiParam::U32(source)));
    asushw_call(backend, "sensor_update_buffer", params)
}

/// Plan the value read of one sensor index; its reply property is "Data".
pub fn sensor_value_request(backend: &AsusWmiBackend, index: u32) -> (r: Result<
    WmiMethodCall,
    NoCrateError,
>)
    ensures
        backend matches AsusWmiBackend::AsusHW { instance_path } ==> (r matches Ok(call) && {
            &&& call.object_path@ == instance_path@
            &&& call.method@ == "sensor_get_value"@
            &&& call.params@.len() == 1
            &&& call.params@[0].0@ == "Index"@
            &&& call.params@[0].1 == WmiParam::U32(index)
        }),
        !(backend is AsusHW) ==> r is Err,
        r matches Err(e) ==> e is Wmi,
{
    let mut params: Vec<(String, WmiParam)> = Vec::new();
    params.push(("Index".to_owned(), WmiParam::U32(index)));
    asushw_call(backend, "sensor_get_value", params)
}

/// Whether `v` is the source group of some sensor in the list.
pub open spec fn spec_is_source_of(sensors: Seq<AsusHWSensor>, v: u32) -> bool {
    exists|m: int| 0 <= m < sensors.len() && sensors[m].source == v
}

/// The distinct source groups among a sensor list, first occurrence
/// first: every sensor's source appears exactly once, so each group's
/// buffer is refreshed once before the values are read.
pub fn unique_sources(sensors: &Vec<AsusHWSensor>) -> (r: Vec<u32>)
    ensures
        forall|i: int, j: int| 0 <= i < j < r@.len() ==> r@[i] != r@[j],
        forall|k: int| 0 <= k < sensors@.len() ==> r@.contains(#[trigger] sensors@[k].source),
        forall|i: int| 0 <= i < r@.len() ==> spec_is_source_of(sensors@, #[trigger] r@[i]),
{
    let mut out: Vec<u32> = Vec::new();
    let mut k: usize = 0;
    while k < sensors.len()
        invariant
            k <= sensors@.len(),
            forall|i: int, j: int| 0 <= i < j < out@.len() ==> out@[i] != out@[j],
            forall|m: int| 0 <= m < k ==> out@.contains(#[trigger] sensors@[m].source),
            forall|i: int| 0 <= i < out@.len() ==> spec_is_source_of(sensors@, #[trigger] out@[i]),
        decreases sensors@.len() - k,
    {
        let src = sensors[k].source;
        let ghost out_pre = out@;
        let mut seen = false;
        let mut i: usize = 0;
        while i < out.len()
            invariant
                i <= out@.len(),
                out@ == out_pre,
                seen == exists|j: int| 0 <= j < i && out@[j] == src,
            decreases out@.len() - i,
        {
            if out[i] == src {
                seen = true;
            }
            i = i + 1;
        }
        if !seen {
            out.push(src);
            proof {
                assert forall|i0: int, j0: int| 0 <= i0 < j0 < out@.len() implies out@[i0]
                    != out@[j0] by {
                    if j0 < out_pre.len() {
                        assert(out@[i0] == out_pre[i0] && out@[j0] == out_pre[j0]);
                    } else {
                        assert(out@[j0] == src);
                        assert(out@[i0] == out_pre[i0]);
                    }
                }
            }
        }
        proof {
            assert(out@.contains(src)) by {
                if seen {
                    let j = choose|j: int| 0 <= j < out_pre.len() && out_pre[j] == src;
                    assert(out@[j] == src);
                } else {
                    assert(out@[out@.len() - 1] == src);
                }
            }
            assert forall|m: int| 0 <= m < k as int + 1 implies out@.contains(
                #[trigger] sensors@[m].source,
            ) by {
                if m < k as int {
                    let j = choose|j: int|
                        0 <= j < out_pre.len() && out_pre[j] == sensors@[m].source;
                    assert(out@[j] == sensors@[m].source);
                } else {
                    assert(sensors@[m].source == src);
                }
            }
            assert forall|i0: int| 0 <= i0 < out@.len() implies spec_is_source_of(
                sensors@,
                #[trigger] out@[i0],
            ) by {
                if i0 < out_pre.len() {
                    assert(spec_is_source_of(sensors@, out_pre[i0]));
                    assert(out@[i0] == out_pre[i0]);
                } else {
                    assert(out@[i0] == src);
                    assert(sensors@[k as int].source == src);
                }
            }
        }
        k = k + 1;
    }
    out
}

} // verus!
