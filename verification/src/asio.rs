//! The diagnostic probe of the desktop class's raw hardware-access
//! methods.
//!
//! The desktop management class exposes low-level register reads (an I/O
//! port byte, a hardware-monitor bank/index byte, a logical-device
//! register, and a batched form). The probe calls a fixed list of them
//! and reports each outcome; the list itself — which method, which
//! arguments, which reply property — is decided here, and the embedding
//! application only executes it.

use vstd::prelude::*;

use crate::backend::{AsusWmiBackend, WmiMethodCall, WmiParam};
use crate::error::NoCrateError;

verus! {

/// One planned diagnostic call: a display label, the method call, and
/// the reply property that carries the value.
#[derive(Debug)]
pub struct AsioProbe {
    /// Human-readable label for the report.
    pub label: String,
    /// The method invocation.
    pub call: WmiMethodCall,
    /// The reply property to read.
    pub out_property: String,
}

/// The method name, first parameter and reply property of probe `i` of
/// the diagnostic sweep.
pub open spec fn spec_asio_probe_shape(probes: Seq<AsioProbe>, i: int, method: Seq<char>, param0: Seq<char>, out: Seq<char>) -> bool {
    &&& probes[i].call.method@ == method
    &&& probes[i].call.params@.len() >= 1
    &&& probes[i].call.params@[0].0@ == param0
    &&& probes[i].out_property@ == out
}

/// Plan the diagnostic sweep of the desktop class's raw hardware-access
/// methods: three I/O port byte reads, four hardware-monitor bank/index
/// reads, one logical-device register read and one batched read. Only
/// the desktop backend has these methods.
pub fn asio_hw_probe_plan(backend: &AsusWmiBackend) -> (r: Result<Vec<AsioProbe>, NoCrateError>)
    ensures
        backend is Desktop <==> r is Ok,
        r matches Err(e) ==> e is Wmi,
        r matches Ok(probes) ==> {
            &&& probes@.len() == 9
            &&& forall|i: int|
                0 <= i < 9 ==> (#[trigger] probes@[i]).call.object_path@ == (match backend {
                    AsusWmiBackend::Desktop { instance_path } => instance_path@,
                    _ => Seq::<char>::empty(),
                })
            &&& spec_asio_probe_shape(probes@, 0, "asio_hw_fun07"@, "wPort"@, "bData"@)
            &&& probes@[0].call.params@[0].1 == WmiParam::U32(0x2Eu32)
            &&& spec_asio_probe_shape(probes@, 1, "asio_hw_fun07"@, "wPort"@, "bData"@)
            &&& probes@[1].call.params@[0].1 == WmiParam::U32(0x295u32)
            &&& spec_asio_probe_shape(probes@, 2, "asio_hw_fun07"@, "wPort"@, "bData"@)
            &&& probes@[2].call.params@[0].1 == WmiParam::U32(0x61u32)
            &&& spec_asio_probe_shape(probes@, 3, "asio_hw_fun21"@, "Bank"@, "Data"@)
            &&& probes@[3].call.params@[0].1 == WmiParam::U8(0u8)
            &&& probes@[3].call.params@[1].1 == WmiParam::U8(0x4Fu8)
            &&& spec_asio_probe_shape(probes@, 4, "asio_hw_fun21"@, "Bank"@, "Data"@)
            &&& probes@[4].call.params@[1].1 == WmiParam::U8(0x27u8)
            &&& spec_asio_probe_shape(probes@, 5, "asio_hw_fun21"@, "Bank"@, "Data"@)
            &&& probes@[5].call.params@[0].1 == WmiParam::U8(4u8)
            &&& probes@[5].call.params@[1].1 == WmiParam::U8(0xC0u8)
            &&& spec_asio_probe_shape(probes@, 6, "asio_hw_fun21"@, "Bank"@, "Data"@)
            &&& probes@[6].call.params@[1].1 == WmiParam::U8(0xC1u8)
            &&& spec_asio_probe_shape(probes@, 7, "asio_hw_fun19"@, "LDN"@, "Data"@)
            &&& probes@[7].call.params@[0].1 == WmiParam::U8(0x0Bu8)
            &&& probes@[7].call.params@[1].1 == WmiParam::U8(0x20u8)
            &&& spec_asio_probe_shape(probes@, 8, "asio_hw_fun23"@, "BankIndexArray"@, "DataArray"@)
            &&& (probes@[8].call.params@[0].1 matches WmiParam::Str(s) && s@ == "00,4F"@)
        },
{
    let path = match backend {
        AsusWmiBackend::Desktop { instance_path } => instance_path.as_str(),
        _ => {
            return Err(
                NoCrateError::Wmi(
                    "the raw hardware-access methods exist on the desktop backend only".to_owned(),
                ),
            );
        },
    };
    let mut probes: Vec<AsioProbe> = Vec::new();
    probes.push(port_probe(path, "fun07(wPort=0x2E)", 0x2E));
    probes.push(port_probe(path, "fun07(wPort=0x0295)", 0x295));
    probes.push(port_probe(path, "fun07(wPort=0x61)", 0x61));
    probes.push(bank_probe(path, "fun21(Bank=0, Index=0x4F) [Vendor ID]", 0, 0x4F));
    probes.push(bank_probe(path, "fun21(Bank=0, Index=0x27) [SYSTIN]", 0, 0x27));
    probes.push(bank_probe(path, "fun21(Bank=4, Index=0xC0) [Fan0 high]", 4, 0xC0));
    probes.push(bank_probe(path, "fun21(Bank=4, Index=0xC1) [Fan0 low]", 4, 0xC1));
    probes.push(ldn_probe(path, "fun19(LDN=0x0B, Index=0x20) [ChipID high]", 0x0B, 0x20));
    probes.push(batch_probe(path, "fun23('00,4F') [Vendor ID batch]", "00,4F"));
    Ok(probes)
}

/// A fun07 probe: read one I/O port byte.
fn port_probe(path: &str, label: &str, port: u32) -> (r: AsioProbe)
    ensures
        r.call.object_path@ == path@,
        r.label@ == label@,
        r.call.method@ == "asio_hw_fun07"@,
        r.call.params@.len() == 1,
        r.call.params@[0].0@ == "wPort"@,
        r.call.params@[0].1 == WmiParam::U32(port),
        r.out_property@ == "bData"@,
{
    let mut params: Vec<(String, WmiParam)> = Vec::new();
    params.push(("wPort".to_owned(), WmiParam::U32(port)));
    AsioProbe {
        label: label.to_owned(),
        call: WmiMethodCall {
            object_path: path.to_owned(),
            method: "asio_hw_fun07".to_owned(),
            params,
        },
        out_property: "bData".to_owned(),
    }
}

/// A fun21 probe: read one hardware-monitor register by bank and index.
fn bank_probe(path: &str, label: &str, bank: u8, index: u8) -> (r: AsioProbe)
    ensures
        r.call.object_path@ == path@,
        r.label@ == label@,
        r.call.method@ == "asio_hw_fun21"@,
        r.call.params@.len() == 2,
        r.call.params@[0].0@ == "Bank"@,
        r.call.params@[0].1 == WmiParam::U8(bank),
        r.call.params@[1].0@ == "Index"@,
        r.call.params@[1].1 == WmiParam::U8(index),
        r.out_property@ == "Data"@,
{
    let mut params: Vec<(String, WmiParam)> = Vec::new();
    params.push(("Bank".to_owned(), WmiParam::U8(bank)));
    params.push(("Index".to_owned(), WmiParam::U8(index)));
    AsioProbe {
        label: label.to_owned(),
        call: WmiMethodCall {
            object_path: path.to_owned(),
            method: "asio_hw_fun21".to_owned(),
            params,
        },
        out_property: "Data".to_owned(),
    }
}

/// A fun19 probe: read one logical-device configuration register.
fn ldn_probe(path: &str, label: &str, ldn: u8, index: u8) -> (r: AsioProbe)
    ensures
        r.call.object_path@ == path@,
        r.label@ == label@,
        r.call.method@ == "asio_hw_fun19"@,
        r.call.params@.len() == 2,
        r.call.params@[0].0@ == "LDN"@,
        r.call.params@[0].1 == WmiParam::U8(ldn),
        r.call.params@[1].0@ == "Index"@,
        r.call.params@[1].1 == WmiParam::U8(index),
        r.out_property@ == "Data"@,
{
    let mut params: Vec<(String, WmiParam)> = Vec::new();
    params.push(("LDN".to_owned(), WmiParam::U8(ldn)));
    params.push(("Index".to_owned(), WmiParam::U8(index)));
    AsioProbe {
        label: label.to_owned(),
        call: WmiMethodCall {
            object_path: path.to_owned(),
            method: "asio_hw_fun19".to_owned(),
            params,
        },
        out_property: "Data".to_owned(),
    }
}

/// A fun23 probe: read a batch of bank/index pairs in one call.
fn batch_probe(path: &str, label: &str, pairs: &str) -> (r: AsioProbe)
    ensures
        r.call.object_path@ == path@,
        r.label@ == label@,
        r.call.method@ == "asio_hw_fun23"@,
        r.call.params@.len() == 1,
        r.call.params@[0].0@ == "BankIndexArray"@,
        (r.call.params@[0].1 matches WmiParam::Str(s) && s@ == pairs@),
        r.out_property@ == "DataArray"@,
{
    let mut params: Vec<(String, WmiParam)> = Vec::new();
    params.push(("BankIndexArray".to_owned(), WmiParam::Str(pairs.to_owned())));
    AsioProbe {
        label: label.to_owned(),
        call: WmiMethodCall {
            object_path: path.to_owned(),
            method: "asio_hw_fun23".to_owned(),
            params,
        },
        out_property: "DataArray".to_owned(),
    }
}

} // verus!
