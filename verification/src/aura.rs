//! ASUS AURA USB HID packet building.
//!
//! The controller speaks fixed 65-byte HID reports: one report-ID byte
//! followed by a command byte and its payload. Every builder here pins
//! each byte of the report; the embedding application only hands the
//! finished report to the HID device.

use vstd::prelude::*;

verus! {

/// ASUS USB vendor ID.
pub const AURA_VID: u16 = 0x0B05;

/// Total HID report size: 1 byte report ID + 64 bytes payload.
pub const REPORT_SIZE: usize = 65;

/// Set an effect mode on a channel, or commit (with the 0xFF byte).
pub const CMD_SET_EFFECT: u8 = 0x35;

/// Direct per-LED color control.
pub const CMD_DIRECT: u8 = 0x36;

/// Query firmware version.
pub const CMD_FIRMWARE: u8 = 0xB0;

/// Maximum LEDs addressable in a single direct-mode packet: each LED
/// takes 3 payload bytes and about 60 are free after the header.
pub const MAX_LEDS_PER_PACKET: usize = 20;

/// Known AURA motherboard controller product IDs.
pub fn aura_mb_pids() -> (r: Vec<u16>)
    ensures
        r@ =~= seq![0x1867u16, 0x1869u16, 0x18F3u16, 0x19AFu16, 0x1939u16, 0x1854u16],
{
    let mut v: Vec<u16> = Vec::new();
    v.push(0x1867);
    v.push(0x1869);
    v.push(0x18F3);
    v.push(0x19AF);
    v.push(0x1939);
    v.push(0x1854);
    v
}

/// Predefined AURA lighting effects.
#[derive(Debug, Clone, Copy, PartialEq, Eq, Structural)]
pub enum AuraEffect {
    /// LEDs off.
    Off,
    /// Solid single color.
    Static,
    /// Pulse between color and off.
    Breathing,
    /// Cycle through the color wheel.
    ColorCycle,
    /// Flowing rainbow across LEDs.
    Rainbow,
    /// Full-spectrum sweep.
    SpectrumCycle,
}

/// The protocol byte of an effect.
pub open spec fn spec_effect_raw(e: AuraEffect) -> u8 {
    match e {
        AuraEffect::Off => 0x00u8,
        AuraEffect::Static => 0x01u8,
        AuraEffect::Breathing => 0x02u8,
        AuraEffect::ColorCycle => 0x03u8,
        AuraEffect::Rainbow => 0x04u8,
        AuraEffect::SpectrumCycle => 0x05u8,
    }
}

impl AuraEffect {
    /// Map to the protocol byte sent in the HID report.
    pub fn to_raw(self) -> (r: u8)
        ensures
            r == spec_effect_raw(self),
    {
        match self {
            AuraEffect::Off => 0x00,
            AuraEffect::Static => 0x01,
            AuraEffect::Breathing => 0x02,
            AuraEffect::ColorCycle => 0x03,
            AuraEffect::Rainbow => 0x04,
            AuraEffect::SpectrumCycle => 0x05,
        }
    }

    /// Parse from a raw protocol byte; bytes above the known effects are
    /// rejected.
    pub fn from_raw(v: u8) -> (r: Option<AuraEffect>)
        ensures
            v <= 0x05 ==> (r matches Some(e) && spec_effect_raw(e) == v),
            v > 0x05 ==> r is None,
    {
        match v {
            0x00 => Some(AuraEffect::Off),
            0x01 => Some(AuraEffect::Static),
            0x02 => Some(AuraEffect::Breathing),
            0x03 => Some(AuraEffect::ColorCycle),
            0x04 => Some(AuraEffect::Rainbow),
            0x05 => Some(AuraEffect::SpectrumCycle),
            _ => None,
        }
    }
}

/// Effect speed preset.
#[derive(Debug, Clone, Copy, PartialEq, Eq, Structural)]
pub enum AuraSpeed {
    /// Slow animation.
    Slow,
    /// Medium animation.
    Medium,
    /// Fast animation.
    Fast,
}

/// The protocol byte of a speed preset (smaller is faster).
pub open spec fn spec_speed_raw(s: AuraSpeed) -> u8 {
    match s {
        AuraSpeed::Slow => 0x03u8,
        AuraSpeed::Medium => 0x02u8,
        AuraSpeed::Fast => 0x01u8,
    }
}

impl AuraSpeed {
    /// Map to the protocol byte sent in the HID report.
    pub fn to_raw(self) -> (r: u8)
        ensures
            r == spec_speed_raw(self),
    {
        match self {
            AuraSpeed::Slow => 0x03,
            AuraSpeed::Medium => 0x02,
            AuraSpeed::Fast => 0x01,
        }
    }
}

/// An RGB colour value.
#[derive(Debug, Clone, Copy, PartialEq, Eq, Structural)]
pub struct RgbColor {
    /// Red component.
    pub r: u8,
    /// Green component.
    pub g: u8,
    /// Blue component.
    pub b: u8,
}

impl RgbColor {
    /// A colour from its components.
    pub fn new(r: u8, g: u8, b: u8) -> (c: RgbColor)
        ensures
            c == (RgbColor { r, g, b }),
    {
        RgbColor { r, g, b }
    }

    /// All components zero.
    pub fn black() -> (c: RgbColor)
        ensures
            c == (RgbColor { r: 0u8, g: 0u8, b: 0u8 }),
    {
        RgbColor { r: 0, g: 0, b: 0 }
    }

    /// All components full.
    pub fn white() -> (c: RgbColor)
        ensures
            c == (RgbColor { r: 255u8, g: 255u8, b: 255u8 }),
    {
        RgbColor { r: 255, g: 255, b: 255 }
    }
}

/// Information about a discovered AURA device.
#[derive(Debug)]
pub struct AuraDeviceInfo {
    /// USB product ID.
    pub pid: u16,
    /// Product name reported by the device (may be empty).
    pub product: String,
}

/// How much of a payload fits in a report: everything after the report-ID
/// and command bytes, at most 63 bytes.
pub open spec fn spec_payload_fit(n: nat) -> int {
    if n > 63 {
        63int
    } else {
        n as int
    }
}

/// Build a blank 65-byte HID report: report ID 0, the command byte, the
/// payload (truncated to the 63 bytes that fit), zeros elsewhere.
pub fn build_report(cmd: u8, payload: &Vec<u8>) -> (r: Vec<u8>)
    ensures
        r@.len() == 65,
        r@[0] == 0u8,
        r@[1] == cmd,
        forall|i: int|
            2 <= i < 2 + spec_payload_fit(payload@.len()) ==> #[trigger] r@[i] == payload@[i - 2],
        forall|i: int| 2 + spec_payload_fit(payload@.len()) <= i < 65 ==> #[trigger] r@[i] == 0u8,
{
    let mut buf: Vec<u8> = Vec::new();
    buf.push(0);
    buf.push(cmd);
    let n: usize = if payload.len() > 63 {
        63
    } else {
        payload.len()
    };
    let mut i: usize = 0;
    while i < n
        invariant
            n == spec_payload_fit(payload@.len()),
            i <= n,
            buf@.len() == 2 + i as int,
            buf@[0] == 0u8,
            buf@[1] == cmd,
            forall|j: int| 2 <= j < 2 + i ==> #[trigger] buf@[j] == payload@[j - 2],
        decreases n - i,
    {
        buf.push(payload[i]);
        i = i + 1;
    }
    while buf.len() < 65
        invariant
            n == spec_payload_fit(payload@.len()),
            2 + n <= buf@.len() <= 65,
            buf@[0] == 0u8,
            buf@[1] == cmd,
            forall|j: int| 2 <= j < 2 + n ==> #[trigger] buf@[j] == payload@[j - 2],
            forall|j: int| 2 + n <= j < buf@.len() ==> #[trigger] buf@[j] == 0u8,
        decreases 65 - buf@.len(),
    {
        buf.push(0);
    }
    buf
}

/// Build a "set effect" report for channel 0: the effect byte, the base
/// colour, the speed byte and the default direction.
pub fn build_set_effect(effect: AuraEffect, color: RgbColor, speed: AuraSpeed) -> (r: Vec<u8>)
    ensures
        r@.len() == 65,
        r@[0] == 0u8,
        r@[1] == 0x35u8,
        r@[2] == 0u8,
        r@[3] == spec_effect_raw(effect),
        r@[4] == color.r,
        r@[5] == color.g,
        r@[6] == color.b,
        r@[7] == spec_speed_raw(speed),
        forall|i: int| 8 <= i < 65 ==> r@[i] == 0u8,
{
    let mut payload: Vec<u8> = Vec::new();
    payload.push(0x00);
    payload.push(effect.to_raw());
    payload.push(color.r);
    payload.push(color.g);
    payload.push(color.b);
    payload.push(speed.to_raw());
    payload.push(0x00);
    build_report(CMD_SET_EFFECT, &payload)
}

/// Build the "commit" report that applies the last effect change.
pub fn build_commit() -> (r: Vec<u8>)
    ensures
        r@.len() == 65,
        r@[0] == 0u8,
        r@[1] == 0x35u8,
        r@[2] == 0xFFu8,
        forall|i: int| 3 <= i < 65 ==> r@[i] == 0u8,
{
    let mut payload: Vec<u8> = Vec::new();
    payload.push(0xFF);
    build_report(CMD_SET_EFFECT, &payload)
}

/// Build a firmware-query report: the command byte alone.
pub fn build_firmware_query() -> (r: Vec<u8>)
    ensures
        r@.len() == 65,
        r@[0] == 0u8,
        r@[1] == 0xB0u8,
        forall|i: int| 2 <= i < 65 ==> r@[i] == 0u8,
{
    let payload: Vec<u8> = Vec::new();
    build_report(CMD_FIRMWARE, &payload)
}

/// A well-formed direct-mode report for a chunk of LED colours starting
/// at LED index `start`: the command, the start index, the count, the
/// R/G/B triples in order, zeros elsewhere.
pub open spec fn spec_direct_packet(bytes: Seq<u8>, start: u8, chunk: Seq<RgbColor>) -> bool {
    &&& bytes.len() == 65
    &&& bytes[0] == 0u8
    &&& bytes[1] == 0x36u8
    &&& bytes[2] == start
    &&& bytes[3] == chunk.len() as u8
    &&& forall|i: int|
        0 <= i < chunk.len() ==> bytes[4 + 3 * i] == (#[trigger] chunk[i]).r && bytes[5 + 3 * i]
            == chunk[i].g && bytes[6 + 3 * i] == chunk[i].b
    &&& forall|i: int| 4 + 3 * chunk.len() <= i < 65 ==> bytes[i] == 0u8
}

/// Build a "direct color" report for up to [`MAX_LEDS_PER_PACKET`] LEDs
/// starting at the zero-based LED index `start_led`; colours beyond the
/// first twenty are left for further packets.
pub fn build_direct(start_led: u8, colors: &Vec<RgbColor>) -> (r: Vec<u8>)
    ensures
        spec_direct_packet(
            r@,
            start_led,
            colors@.take(
                if colors@.len() > 20 {
                    20int
                } else {
                    colors@.len() as int
                },
            ),
        ),
{
    let count: usize = if colors.len() > 20 {
        20
    } else {
        colors.len()
    };
    let mut payload: Vec<u8> = Vec::new();
    payload.push(start_led);
    payload.push(count as u8);
    let mut i: usize = 0;
    while i < count
        invariant
            count <= 20,
            count <= colors@.len(),
            i <= count,
            payload@.len() == 2 + 3 * i as int,
            payload@[0] == start_led,
            payload@[1] == count as u8,
            forall|j: int|
                0 <= j < i ==> payload@[2 + 3 * j] == (#[trigger] colors@[j]).r && payload@[3 + 3
                    * j] == colors@[j].g && payload@[4 + 3 * j] == colors@[j].b,
        decreases count - i,
    {
        let c = colors[i];
        payload.push(c.r);
        payload.push(c.g);
        payload.push(c.b);
        i = i + 1;
    }
    let r = build_report(CMD_DIRECT, &payload);
    proof {
        let chunk = colors@.take(count as int);
        assert(payload@.len() == 2 + 3 * count as int);
        assert(spec_payload_fit(payload@.len()) == payload@.len());
        assert forall|j: int| 0 <= j < chunk.len() implies r@[4 + 3 * j] == (
        #[trigger] chunk[j]).r && r@[5 + 3 * j] == chunk[j].g && r@[6 + 3 * j] == chunk[j].b by {
            assert(r@[4 + 3 * j] == payload@[4 + 3 * j - 2]);
            assert(r@[5 + 3 * j] == payload@[5 + 3 * j - 2]);
            assert(r@[6 + 3 * j] == payload@[6 + 3 * j - 2]);
            assert(chunk[j] == colors@[j]);
        }
        assert(r@[2] == payload@[0]);
        assert(r@[3] == payload@[1]);
    }
    r
}

/// Split a full LED strip into direct-mode reports, twenty LEDs each:
/// packet `p` covers the LEDs from index `20 * p` on, and each report is
/// a well-formed direct packet for its chunk.
pub fn direct_packets(colors: &Vec<RgbColor>) -> (r: Vec<Vec<u8>>)
    requires
        colors@.len() <= 260,
    ensures
        colors@.len() == 0 ==> r@.len() == 0,
        colors@.len() > 0 ==> r@.len() == (colors@.len() + 19) / 20,
        forall|p: int|
            0 <= p < r@.len() ==> spec_direct_packet(
                (#[trigger] r@[p])@,
                (20 * p) as u8,
                colors@.subrange(
                    20 * p,
                    if 20 * p + 20 > colors@.len() {
                        colors@.len() as int
                    } else {
                        20 * p + 20
                    },
                ),
            ),
{
    let mut out: Vec<Vec<u8>> = Vec::new();
    let mut start: usize = 0;
    while start < colors.len()
        invariant
            colors@.len() <= 260,
            start <= colors@.len(),
            start <= 20 * out@.len(),
            20 * out@.len() <= start + 19,
            start == 20 * out@.len() || start == colors@.len(),
            forall|p: int|
                0 <= p < out@.len() ==> spec_direct_packet(
                    (#[trigger] out@[p])@,
                    (20 * p) as u8,
                    colors@.subrange(
                        20 * p,
                        if 20 * p + 20 > colors@.len() {
                            colors@.len() as int
                        } else {
                            20 * p + 20
                        },
                    ),
                ),
        decreases colors@.len() - start,
    {
        let remaining = colors.len() - start;
        let take: usize = if remaining > 20 {
            20
        } else {
            remaining
        };
        let mut chunk: Vec<RgbColor> = Vec::new();
        let mut i: usize = 0;
        while i < take
            invariant
                colors@.len() <= 260,
                start + take <= colors@.len(),
                i <= take,
                chunk@.len() == i as int,
                forall|j: int| 0 <= j < i ==> chunk@[j] == colors@[start as int + j],
            decreases take - i,
        {
            chunk.push(colors[start + i]);
            i = i + 1;
        }
        let packet = build_direct(start as u8, &chunk);
        proof {
            let lo: int = 20 * out@.len() as int;
            let hi: int = if lo + 20 > colors@.len() {
                colors@.len() as int
            } else {
                lo + 20
            };
            assert(chunk@ =~= colors@.subrange(start as int, start as int + take as int));
            assert(chunk@.take(
                if chunk@.len() > 20 {
                    20int
                } else {
                    chunk@.len() as int
                },
            ) =~= chunk@);
            assert(colors@.subrange(lo, hi) =~= chunk@);
        }
        out.push(packet);
        start = start + take;
    }
    proof {
        if colors@.len() > 0 {
            assert(out@.len() == (colors@.len() + 19) / 20) by (nonlinear_arith)
                requires
                    colors@.len() > 0,
                    20 * out@.len() >= colors@.len(),
                    20 * out@.len() < colors@.len() + 20,
            {}
        }
    }
    out
}

} // verus!
