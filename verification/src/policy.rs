//! Desktop fan-policy rules (the desktop management class only).
//!
//! A desktop board exposes per-header fan policies through a get/set
//! method pair. The mode and profile fields are closed string
//! enumerations; unrecognized strings coerce to the default variant
//! (deliberately — firmware may grow new strings — though this can mask
//! them). A header whose read reports a nonzero error code is absent, not
//! an error.

use vstd::prelude::*;
use vstd::string::StrSliceExecFns;

use crate::backend::{AsusWmiBackend, WmiMethodCall, WmiParam};
use crate::error::NoCrateError;

verus! {

/// Maximum number of fan headers probed on a desktop board.
pub const DESKTOP_MAX_FAN_HEADERS: u8 = 8;

/// What `str::to_uppercase` returns for a string: a function of its
/// characters alone.
pub uninterp spec fn upper_of(s: Seq<char>) -> Seq<char>;

/// Relies on str::to_uppercase: the result depends on the characters
/// alone, in every process and on every machine.
#[verifier::external_body]
fn uppercase(s: &str) -> (r: String)
    ensures
        r@ == upper_of(s@),
{
    s.to_uppercase()
}

/// Character-wise string equality.
pub fn str_eq(a: &str, b: &str) -> (r: bool)
    ensures
        r == (a@ == b@),
{
    let la = a.unicode_len();
    let lb = b.unicode_len();
    if la != lb {
        proof {
            assert(a@ != b@);
        }
        return false;
    }
    let mut i: usize = 0;
    while i < la
        invariant
            la == a@.len(),
            lb == b@.len(),
            la == lb,
            i <= la,
            forall|j: int| 0 <= j < i ==> a@[j] == b@[j],
        decreases la - i,
    {
        let ca = a.get_char(i);
        let cb = b.get_char(i);
        if ca != cb {
            proof {
                assert(a@[i as int] != b@[i as int]);
            }
            return false;
        }
        i = i + 1;
    }
    proof {
        assert(a@ =~= b@);
    }
    true
}

/// Fan control mode on desktop boards, carried as the `Mode` string.
#[derive(Debug, Clone, Copy, PartialEq, Eq, Structural)]
pub enum DesktopFanMode {
    /// Voltage/duty controlled.
    Pwm,
    /// Automatic control.
    Auto,
}

/// The mode an uppercased wire string decodes to: "PWM" is PWM control,
/// everything else coerces to automatic.
pub open spec fn spec_mode_from_upper(u: Seq<char>) -> DesktopFanMode {
    if u == "PWM"@ {
        DesktopFanMode::Pwm
    } else {
        DesktopFanMode::Auto
    }
}

impl DesktopFanMode {
    /// Decode the wire string, case-insensitively.
    pub fn from_wmi(s: &str) -> (r: DesktopFanMode)
        ensures
            r == spec_mode_from_upper(upper_of(s@)),
    {
        let u = uppercase(s);
        if str_eq(u.as_str(), "PWM") {
            DesktopFanMode::Pwm
        } else {
            DesktopFanMode::Auto
        }
    }

    /// The wire string for this mode.
    pub fn to_wmi(&self) -> (r: &str)
        ensures
            self is Pwm ==> r@ == "PWM"@,
            self is Auto ==> r@ == "AUTO"@,
    {
        match self {
            DesktopFanMode::Pwm => "PWM",
            DesktopFanMode::Auto => "AUTO",
        }
    }
}

/// Fan policy profile on desktop boards, carried as the `Profile` string.
#[derive(Debug, Clone, Copy, PartialEq, Eq, Structural)]
pub enum DesktopFanProfile {
    /// User-defined manual curve.
    Manual,
    /// Default automatic curve.
    Standard,
}

/// The profile an uppercased wire string decodes to: "MANUAL" is the
/// manual curve, everything else coerces to standard.
pub open spec fn spec_profile_from_upper(u: Seq<char>) -> DesktopFanProfile {
    if u == "MANUAL"@ {
        DesktopFanProfile::Manual
    } else {
        DesktopFanProfile::Standard
    }
}

impl DesktopFanProfile {
    /// Decode the wire string, case-insensitively.
    pub fn from_wmi(s: &str) -> (r: DesktopFanProfile)
        ensures
            r == spec_profile_from_upper(upper_of(s@)),
    {
        let u = uppercase(s);
        if str_eq(u.as_str(), "MANUAL") {
            DesktopFanProfile::Manual
        } else {
            DesktopFanProfile::Standard
        }
    }

    /// The wire string for this profile.
    pub fn to_wmi(&self) -> (r: &str)
        ensures
            self is Manual ==> r@ == "MANUAL"@,
            self is Standard ==> r@ == "STANDARD"@,
    {
        match self {
            DesktopFanProfile::Manual => "MANUAL",
            DesktopFanProfile::Standard => "STANDARD",
        }
    }
}

/// Complete fan policy of one desktop fan header; round-trips through the
/// policy get/set methods.
#[derive(Debug)]
pub struct DesktopFanPolicy {
    /// Fan header index (0 = CPU, 1.. = chassis).
    pub fan_type: u8,
    /// Control mode.
    pub mode: DesktopFanMode,
    /// Curve profile.
    pub profile: DesktopFanProfile,
    /// Temperature source, such as "CPU".
    pub source: String,
    /// Minimum RPM threshold.
    pub low_limit: u32,
}

/// Friendly display name of a desktop fan header index.
pub open spec fn spec_desktop_fan_name(fan_type: u8) -> Seq<char> {
    if fan_type == 0 {
        "CPU Fan"@
    } else if fan_type == 1 {
        "Chassis Fan 1"@
    } else if fan_type == 2 {
        "Chassis Fan 2"@
    } else if fan_type == 3 {
        "Chassis Fan 3"@
    } else if fan_type == 4 {
        "Chassis Fan 4"@
    } else if fan_type == 5 {
        "Chassis Fan 5"@
    } else if fan_type == 6 {
        "Chassis Fan 6"@
    } else if fan_type == 7 {
        "Chassis Fan 7"@
    } else {
        "Unknown Fan"@
    }
}

/// Friendly display name of a desktop fan header index.
pub fn desktop_fan_name(fan_type: u8) -> (r: &'static str)
    ensures
        r@ == spec_desktop_fan_name(fan_type),
{
    match fan_type {
        0 => "CPU Fan",
        1 => "Chassis Fan 1",
        2 => "Chassis Fan 2",
        3 => "Chassis Fan 3",
        4 => "Chassis Fan 4",
        5 => "Chassis Fan 5",
        6 => "Chassis Fan 6",
        7 => "Chassis Fan 7",
        _ => "Unknown Fan",
    }
}

/// Plan the policy read of one fan header. Only the desktop backend has
/// the method; any other backend is rejected.
pub fn fan_policy_request(backend: &AsusWmiBackend, fan_type: u8) -> (r: Result<
    WmiMethodCall,
    NoCrateError,
>)
    ensures
        backend matches AsusWmiBackend::Desktop { instance_path } ==> (r matches Ok(call) && {
            &&& call.object_path@ == instance_path@
            &&& call.method@ == "GetFanPolicy"@
            &&& call.params@.len() == 1
            &&& call.params@[0].0@ == "FanType"@
            &&& call.params@[0].1 == WmiParam::U8(fan_type)
        }),
        !(backend is Desktop) ==> r is Err,
        r matches Err(e) ==> e is Wmi,
{
    match backend {
        AsusWmiBackend::Desktop { instance_path } => {
            let mut params: Vec<(String, WmiParam)> = Vec::new();
            params.push(("FanType".to_owned(), WmiParam::U8(fan_type)));
            Ok(
                WmiMethodCall {
                    object_path: instance_path.as_str().to_owned(),
                    method: "GetFanPolicy".to_owned(),
                    params,
                },
            )
        },
        _ => Err(
            NoCrateError::Wmi("GetFanPolicy is only available on desktop backends".to_owned()),
        ),
    }
}

/// Decode one header's policy from the reply properties.
///
/// A nonzero error code means the header is absent: no policy, no error.
/// Otherwise every field decodes: the mode and profile strings
/// case-insensitively (unrecognized ones coerce to their default
/// variants), the source and the low limit verbatim.
pub fn fan_policy_from_props(
    fan_type: u8,
    error_code: u32,
    mode: &str,
    profile: &str,
    source: String,
    low_limit: u32,
) -> (r: Option<DesktopFanPolicy>)
    ensures
        error_code != 0 ==> r is None,
        error_code == 0 ==> (r matches Some(p) && {
            &&& p.fan_type == fan_type
            &&& p.mode == spec_mode_from_upper(upper_of(mode@))
            &&& p.profile == spec_profile_from_upper(upper_of(profile@))
            &&& p.source@ == source@
            &&& p.low_limit == low_limit
        }),
{
    if error_code != 0 {
        return None;
    }
    Some(
        DesktopFanPolicy {
            fan_type,
            mode: DesktopFanMode::from_wmi(mode),
            profile: DesktopFanProfile::from_wmi(profile),
            source,
            low_limit,
        },
    )
}

/// Plan the policy write of one fan header. Only the desktop backend has
/// the method; any other backend is rejected.
pub fn set_fan_policy_request(backend: &AsusWmiBackend, policy: &DesktopFanPolicy) -> (r: Result<
    WmiMethodCall,
    NoCrateError,
>)
    ensures
        backend matches AsusWmiBackend::Desktop { instance_path } ==> (r matches Ok(call) && {
            &&& call.object_path@ == instance_path@
            &&& call.method@ == "SetFanPolicy"@
            &&& call.params@.len() == 5
            &&& call.params@[0].0@ == "FanType"@
            &&& call.params@[0].1 == WmiParam::U8(policy.fan_type)
            &&& call.params@[1].0@ == "LowLimit"@
            &&& call.params@[1].1 == WmiParam::U32(policy.low_limit)
            &&& call.params@[2].0@ == "Mode"@
            &&& (call.params@[2].1 matches WmiParam::Str(s) && s@ == (if policy.mode is Pwm {
                "PWM"@
            } else {
                "AUTO"@
            }))
            &&& call.params@[3].0@ == "Profile"@
            &&& (call.params@[3].1 matches WmiParam::Str(s) && s@ == (if policy.profile is Manual {
                "MANUAL"@
            } else {
                "STANDARD"@
            }))
            &&& call.params@[4].0@ == "Source"@
            &&& (call.params@[4].1 matches WmiParam::Str(s) && s@ == policy.source@)
        }),
        !(backend is Desktop) ==> r is Err,
        r matches Err(e) ==> e is Wmi,
{
    match backend {
        AsusWmiBackend::Desktop { instance_path } => {
            let mut params: Vec<(String, WmiParam)> = Vec::new();
            params.push(("FanType".to_owned(), WmiParam::U8(policy.fan_type)));
            params.push(("LowLimit".to_owned(), WmiParam::U32(policy.low_limit)));
            params.push(("Mode".to_owned(), WmiParam::Str(policy.mode.to_wmi().to_owned())));
            params.push(("Profile".to_owned(), WmiParam::Str(policy.profile.to_wmi().to_owned())));
            params.push(("Source".to_owned(), WmiParam::Str(policy.source.as_str().to_owned())));
            Ok(
                WmiMethodCall {
                    object_path: instance_path.as_str().to_owned(),
                    method: "SetFanPolicy".to_owned(),
                    params,
                },
            )
        },
        _ => Err(
            NoCrateError::Wmi("SetFanPolicy is only available on desktop backends".to_owned()),
        ),
    }
}

/// Judge the policy write's reply: a zero error code is success, anything
/// else is a typed failure.
pub fn set_fan_policy_result(error_code: u32) -> (r: Result<(), NoCrateError>)
    ensures
        r is Ok <==> error_code == 0,
        error_code != 0 ==> (r matches Err(e) && e is Wmi),
{
    if error_code == 0 {
        Ok(())
    } else {
        Err(NoCrateError::Wmi("SetFanPolicy reported a nonzero error code".to_owned()))
    }
}

impl Clone for DesktopFanPolicy {
    /// A field-for-field copy; the source string is copied character for
    /// character.
    fn clone(&self) -> (r: Self)
        ensures
            spec_policy_view(r) == spec_policy_view(*self),
    {
        DesktopFanPolicy {
            fan_type: self.fan_type,
            mode: self.mode,
            profile: self.profile,
            source: self.source.as_str().to_owned(),
            low_limit: self.low_limit,
        }
    }
}

/// The observable content of a policy: every field, with the source as
/// its characters.
pub open spec fn spec_policy_view(p: DesktopFanPolicy) -> (
    u8,
    DesktopFanMode,
    DesktopFanProfile,
    Seq<char>,
    u32,
) {
    (p.fan_type, p.mode, p.profile, p.source@, p.low_limit)
}

/// The present headers among a probe sweep's outcomes: the policies, in
/// probe order, with the absent headers dropped.
pub open spec fn spec_present_policy_views(s: Seq<Option<DesktopFanPolicy>>) -> Seq<
    (u8, DesktopFanMode, DesktopFanProfile, Seq<char>, u32),
>
    decreases s.len(),
{
    if s.len() == 0 {
        Seq::empty()
    } else {
        match s.last() {
            Some(p) => spec_present_policy_views(s.drop_last()).push(spec_policy_view(p)),
            None => spec_present_policy_views(s.drop_last()),
        }
    }
}

/// Keep only the headers that answered: the policies of a probe sweep,
/// in probe order, absent headers dropped.
pub fn collect_policies(results: Vec<Option<DesktopFanPolicy>>) -> (r: Vec<DesktopFanPolicy>)
    ensures
        r@.map_values(|p: DesktopFanPolicy| spec_policy_view(p)) == spec_present_policy_views(
            results@,
        ),
        r@.len() <= results@.len(),
{
    let mut out: Vec<DesktopFanPolicy> = Vec::new();
    let mut i: usize = 0;
    proof {
        assert(results@.take(0) =~= Seq::<Option<DesktopFanPolicy>>::empty());
        assert(out@.map_values(|p: DesktopFanPolicy| spec_policy_view(p)) =~= Seq::<
            (u8, DesktopFanMode, DesktopFanProfile, Seq<char>, u32),
        >::empty());
    }
    while i < results.len()
        invariant
            i <= results@.len(),
            out@.map_values(|p: DesktopFanPolicy| spec_policy_view(p))
                == spec_present_policy_views(results@.take(i as int)),
            out@.len() <= i as int,
        decreases results@.len() - i,
    {
        let ghost prefix = results@.take(i as int);
        let ghost out0 = out@;
        match &results[i] {
            Some(p) => {
                out.push(p.clone());
            },
            None => (),
        }
        proof {
            let f = |p: DesktopFanPolicy| spec_policy_view(p);
            let prefix1 = results@.take(i as int + 1);
            assert(prefix1.drop_last() =~= prefix);
            assert(prefix1.last() == results@[i as int]);
            if out@.len() > out0.len() {
                assert(out@.map_values(f) =~= out0.map_values(f).push(f(out@.last())));
            }
        }
        i = i + 1;
    }
    proof {
        assert(results@.take(results@.len() as int) =~= results@);
    }
    out
}

} // verus!
