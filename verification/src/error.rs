//! Unified error type for every subsystem.

use vstd::prelude::*;

verus! {

/// Unified error type. Hardware absence and I/O failures are reported
/// through these variants and never abort the process.
#[derive(Debug, Clone)]
pub enum NoCrateError {
    /// WMI connection, detection or method-call failure.
    Wmi(String),
    /// Raw Windows API failure, by HRESULT.
    WindowsApi(u32),
    /// USB HID failure.
    Hid(String),
    /// Configuration load/store failure.
    Config(String),
    /// Super I/O driver or port access failure.
    Sio(String),
    /// Anything else.
    Unknown(String),
}

impl NoCrateError {
    /// A human-readable description of the error.
    pub fn message(&self) -> (r: String)
        ensures
            r@ == self.spec_message(),
    {
        match self {
            NoCrateError::Wmi(s) => "WMI error: ".to_owned().concat(s.as_str()),
            NoCrateError::WindowsApi(_) => "Windows API error".to_owned(),
            NoCrateError::Hid(s) => "HID error: ".to_owned().concat(s.as_str()),
            NoCrateError::Config(s) => "Config error: ".to_owned().concat(s.as_str()),
            NoCrateError::Sio(s) => "SIO error: ".to_owned().concat(s.as_str()),
            NoCrateError::Unknown(s) => "Unknown error: ".to_owned().concat(s.as_str()),
        }
    }

    /// What `message` returns, as a sequence of characters.
    pub open spec fn spec_message(&self) -> Seq<char> {
        match self {
            NoCrateError::Wmi(s) => "WMI error: "@ + s@,
            NoCrateError::WindowsApi(_) => "Windows API error"@,
            NoCrateError::Hid(s) => "HID error: "@ + s@,
            NoCrateError::Config(s) => "Config error: "@ + s@,
            NoCrateError::Sio(s) => "SIO error: "@ + s@,
            NoCrateError::Unknown(s) => "Unknown error: "@ + s@,
        }
    }
}

} // verus!
