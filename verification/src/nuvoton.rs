//! Nuvoton NCT67xxD sensor register decoding.
//!
//! Register access selects a bank through the bank-select register at
//! `base + 0x4E`, writes the register index to `base + 0x05` and reads one
//! byte from `base + 0x06`. Fan tachometer counts are 16-bit, split over
//! two bank-4 registers; temperatures are a signed whole-degree register
//! plus a half-degree fraction bit in a secondary register.

use vstd::prelude::*;

use crate::bus::{lemma_prefix_trans, op_byte, BusOp, SioBus};
use crate::chips::{FanReading, TempReading};
use crate::decode::{
    count_from_bytes, rpm_from_count, spec_count_from_bytes, spec_rpm_from_count, spec_temp_half,
    spec_temp_in_range, temp_half_from_raw, temp_in_range,
};
use crate::error::NoCrateError;

verus! {

/// A detected Nuvoton NCT67xxD chip: its model name, chip ID and the I/O
/// base address of its hardware-monitor block.
pub struct NuvotonChip {
    /// Model name, such as "NCT6796D".
    pub name: String,
    /// 16-bit chip ID as read from the configuration registers.
    pub chip_id: u16,
    /// Hardware-monitor I/O base address.
    pub base_addr: u16,
}

/// The model-name table for Nuvoton chips, keyed by the chip ID with its
/// low nibble (the silicon revision) masked off.
pub open spec fn spec_nuvoton_model_of(masked: u16) -> Option<Seq<char>> {
    if masked == 0xD420 {
        Some("NCT6796D"@)
    } else if masked == 0xD450 {
        Some("NCT6797D"@)
    } else if masked == 0xD580 {
        Some("NCT6798D"@)
    } else if masked == 0xD800 {
        Some("NCT6799D"@)
    } else if masked == 0xC800 {
        Some("NCT6791D"@)
    } else if masked == 0xC910 {
        Some("NCT6792D"@)
    } else if masked == 0xC950 {
        Some("NCT6795D"@)
    } else {
        None
    }
}

/// A usable hardware-monitor base address: nonzero, and low enough that
/// every derived port (up to `base + 0x4E`) stays a 16-bit port number.
pub open spec fn spec_base_ok(base: u16) -> bool {
    0 < base < 0xFF00
}

/// The three bus operations of one banked register read: bank select,
/// index write, data read.
pub open spec fn spec_reg_ops(base: u16, bank: u8, reg: u8, value: u8) -> Seq<BusOp> {
    seq![
        BusOp::WriteByte { port: (base + 0x4E) as u16, value: bank },
        BusOp::WriteByte { port: (base + 0x05) as u16, value: reg },
        BusOp::ReadByte { port: (base + 0x06) as u16, value: value },
    ]
}

/// High-byte register of fan channel `i` (bank 4).
pub open spec fn spec_fan_hi_reg(i: int) -> u8 {
    if i == 0 {
        0xC0u8
    } else if i == 1 {
        0xC2u8
    } else if i == 2 {
        0xC4u8
    } else if i == 3 {
        0xC6u8
    } else if i == 4 {
        0xC8u8
    } else if i == 5 {
        0xCAu8
    } else {
        0xCCu8
    }
}

/// Low-byte register of fan channel `i` (bank 4).
pub open spec fn spec_fan_lo_reg(i: int) -> u8 {
    (spec_fan_hi_reg(i) + 1) as u8
}

/// Name of fan channel `i`.
pub open spec fn spec_fan_name(i: int) -> Seq<char> {
    if i == 0 {
        "CPU Fan"@
    } else if i == 1 {
        "Chassis #1"@
    } else if i == 2 {
        "Chassis #2"@
    } else if i == 3 {
        "Chassis #3"@
    } else if i == 4 {
        "Chassis #4"@
    } else if i == 5 {
        "Chassis #5"@
    } else {
        "Chassis #6"@
    }
}

/// Bank of temperature channel `i`.
pub open spec fn spec_temp_bank(i: int) -> u8 {
    if i == 0 || i == 1 || i == 2 {
        0u8
    } else if i == 3 {
        1u8
    } else if i == 4 {
        2u8
    } else {
        6u8
    }
}

/// Whole-degree register of temperature channel `i`.
pub open spec fn spec_temp_int_reg(i: int) -> u8 {
    if i == 0 {
        0x73u8
    } else if i == 1 {
        0x75u8
    } else if i == 2 {
        0x77u8
    } else {
        0x50u8
    }
}

/// Fraction-bit register of temperature channel `i`.
pub open spec fn spec_temp_frac_reg(i: int) -> u8 {
    (spec_temp_int_reg(i) + 1) as u8
}

/// Name of temperature channel `i`.
pub open spec fn spec_temp_name(i: int) -> Seq<char> {
    if i == 0 {
        "Mainboard"@
    } else if i == 1 {
        "CPU"@
    } else if i == 2 {
        "Auxiliary"@
    } else if i == 3 {
        "Auxiliary 1"@
    } else if i == 4 {
        "Auxiliary 2"@
    } else {
        "Auxiliary 3"@
    }
}

/// The three operations starting at index `n` of `ops` are one banked
/// register read of (`bank`, `reg`): bank select, index write, data read.
pub open spec fn spec_banked_read_at(base: u16, ops: Seq<BusOp>, n: int, bank: u8, reg: u8) -> bool {
    &&& ops[n] == (BusOp::WriteByte { port: (base + 0x4E) as u16, value: bank })
    &&& ops[n + 1] == (BusOp::WriteByte { port: (base + 0x05) as u16, value: reg })
    &&& ops[n + 2] == (BusOp::ReadByte {
        port: (base + 0x06) as u16,
        value: op_byte(ops[n + 2]),
    })
}

/// The six operations of fan chunk `i` within `ops` (which starts at the
/// first operation of fan channel 0), and the reading derived from them:
/// two banked register reads, whose bytes assemble into the tachometer
/// count that gives `fans[i].rpm`.
pub open spec fn spec_fan_chunk_ok(base: u16, ops: Seq<BusOp>, fans: Seq<FanReading>, i: int) -> bool {
    &&& spec_banked_read_at(base, ops, 6 * i, 4u8, spec_fan_hi_reg(i))
    &&& spec_banked_read_at(base, ops, 6 * i + 3, 4u8, spec_fan_lo_reg(i))
    &&& fans[i].name@ == spec_fan_name(i)
    &&& fans[i].channel as int == i
    &&& fans[i].rpm == spec_rpm_from_count(
        spec_count_from_bytes(op_byte(ops[6 * i + 2]), op_byte(ops[6 * i + 5])),
    )
}

/// A complete fan scan: 42 operations, 7 readings, each chunk well formed.
pub open spec fn spec_fans_ok(base: u16, ops: Seq<BusOp>, fans: Seq<FanReading>) -> bool {
    &&& ops.len() == 42
    &&& fans.len() == 7
    &&& forall|i: int| 0 <= i < 7 ==> spec_fan_chunk_ok(base, ops, fans, i)
}

/// The six operations of temperature chunk `i` within `ops`: the
/// whole-degree read followed by the fraction-register read.
pub open spec fn spec_temp_chunk_shape(base: u16, ops: Seq<BusOp>, i: int) -> bool {
    &&& spec_banked_read_at(base, ops, 6 * i, spec_temp_bank(i), spec_temp_int_reg(i))
    &&& spec_banked_read_at(base, ops, 6 * i + 3, spec_temp_bank(i), spec_temp_frac_reg(i))
}

/// The half-degree temperature decoded from chunk `i`: the signed
/// whole-degree byte, refined by bit 7 of the fraction register.
pub open spec fn spec_temp_chunk_val(ops: Seq<BusOp>, i: int) -> int {
    spec_temp_half(op_byte(ops[6 * i + 2]), (op_byte(ops[6 * i + 5]) & 0x80u8) != 0)
}

/// Reading `k` is a faithful decode of its channel's chunk and lies in the
/// plausible range.
pub open spec fn spec_temp_entry_ok(ops: Seq<BusOp>, temps: Seq<TempReading>, k: int) -> bool {
    let i = temps[k].channel as int;
    &&& 0 <= i < 6
    &&& temps[k].name@ == spec_temp_name(i)
    &&& temps[k].temp_half_c as int == spec_temp_chunk_val(ops, i)
    &&& spec_temp_in_range(temps[k].temp_half_c as int)
}

/// A complete temperature scan: 36 operations, every chunk well formed;
/// the readings are exactly the in-range channels, in channel order.
pub open spec fn spec_temps_ok(base: u16, ops: Seq<BusOp>, temps: Seq<TempReading>) -> bool {
    &&& ops.len() == 36
    &&& forall|i: int| 0 <= i < 6 ==> spec_temp_chunk_shape(base, ops, i)
    &&& forall|k: int| 0 <= k < temps.len() ==> spec_temp_entry_ok(ops, temps, k)
    &&& forall|k1: int, k2: int|
        0 <= k1 < k2 < temps.len() ==> temps[k1].channel < temps[k2].channel
    &&& forall|i: int|
        0 <= i < 6 && spec_temp_in_range(spec_temp_chunk_val(ops, i)) ==> exists|k: int|
            0 <= k < temps.len() && temps[k].channel as int == i
}

/// After two banked register reads appended their operations to a log that
/// already extended `pre` by `log0`, the tail past `pre` carries the two
/// read shapes at the expected offsets, and everything before is unchanged.
proof fn lemma_appended_reads(
    pre: Seq<BusOp>,
    log0: Seq<BusOp>,
    log1: Seq<BusOp>,
    cur: Seq<BusOp>,
    base: u16,
    bank: u8,
    reg_a: u8,
    va: u8,
    reg_b: u8,
    vb: u8,
)
    requires
        pre.len() <= log0.len(),
        log1 == log0 + spec_reg_ops(base, bank, reg_a, va),
        cur == log1 + spec_reg_ops(base, bank, reg_b, vb),
    ensures
        cur.len() == log0.len() + 6,
        forall|m: int| 0 <= m < log0.len() ==> cur[m] == log0[m],
        spec_banked_read_at(
            base,
            cur.skip(pre.len() as int),
            log0.len() - pre.len(),
            bank,
            reg_a,
        ),
        spec_banked_read_at(
            base,
            cur.skip(pre.len() as int),
            log0.len() - pre.len() + 3,
            bank,
            reg_b,
        ),
        op_byte(cur.skip(pre.len() as int)[log0.len() - pre.len() + 2]) == va,
        op_byte(cur.skip(pre.len() as int)[log0.len() - pre.len() + 5]) == vb,
{
    let a = spec_reg_ops(base, bank, reg_a, va);
    let b = spec_reg_ops(base, bank, reg_b, vb);
    let app = cur.skip(pre.len() as int);
    let n = log0.len() as int - pre.len() as int;
    assert(app[n + 0] == cur[log0.len() as int + 0]);
    assert(app[n + 1] == cur[log0.len() as int + 1]);
    assert(app[n + 2] == cur[log0.len() as int + 2]);
    assert(app[n + 3] == cur[log0.len() as int + 3]);
    assert(app[n + 4] == cur[log0.len() as int + 4]);
    assert(app[n + 5] == cur[log0.len() as int + 5]);
    assert(cur[log0.len() as int + 0] == a[0]);
    assert(cur[log0.len() as int + 1] == a[1]);
    assert(cur[log0.len() as int + 2] == a[2]);
    assert(cur[log0.len() as int + 3] == b[0]);
    assert(cur[log0.len() as int + 4] == b[1]);
    assert(cur[log0.len() as int + 5] == b[2]);
}

/// High- and low-byte registers of fan channel `i`.
fn fan_regs(i: usize) -> (r: (u8, u8))
    requires
        i < 7,
    ensures
        r.0 == spec_fan_hi_reg(i as int),
        r.1 == spec_fan_lo_reg(i as int),
{
    match i {
        0 => (0xC0, 0xC1),
        1 => (0xC2, 0xC3),
        2 => (0xC4, 0xC5),
        3 => (0xC6, 0xC7),
        4 => (0xC8, 0xC9),
        5 => (0xCA, 0xCB),
        _ => (0xCC, 0xCD),
    }
}

/// Name of fan channel `i`.
fn fan_name(i: usize) -> (r: String)
    requires
        i < 7,
    ensures
        r@ == spec_fan_name(i as int),
{
    match i {
        0 => "CPU Fan".to_owned(),
        1 => "Chassis #1".to_owned(),
        2 => "Chassis #2".to_owned(),
        3 => "Chassis #3".to_owned(),
        4 => "Chassis #4".to_owned(),
        5 => "Chassis #5".to_owned(),
        _ => "Chassis #6".to_owned(),
    }
}

/// Bank and the two registers of temperature channel `i`.
fn temp_regs(i: usize) -> (r: (u8, u8, u8))
    requires
        i < 6,
    ensures
        r.0 == spec_temp_bank(i as int),
        r.1 == spec_temp_int_reg(i as int),
        r.2 == spec_temp_frac_reg(i as int),
{
    match i {
        0 => (0, 0x73, 0x74),
        1 => (0, 0x75, 0x76),
        2 => (0, 0x77, 0x78),
        3 => (1, 0x50, 0x51),
        4 => (2, 0x50, 0x51),
        _ => (6, 0x50, 0x51),
    }
}

/// Name of temperature channel `i`.
fn temp_name(i: usize) -> (r: String)
    requires
        i < 6,
    ensures
        r@ == spec_temp_name(i as int),
{
    match i {
        0 => "Mainboard".to_owned(),
        1 => "CPU".to_owned(),
        2 => "Auxiliary".to_owned(),
        3 => "Auxiliary 1".to_owned(),
        4 => "Auxiliary 2".to_owned(),
        _ => "Auxiliary 3".to_owned(),
    }
}

impl NuvotonChip {
    /// Whether the chip's base address is usable for register access.
    pub open spec fn wf(&self) -> bool {
        spec_base_ok(self.base_addr)
    }

    /// A chip instance for a detected model.
    pub fn new(name: String, chip_id: u16, base_addr: u16) -> (r: NuvotonChip)
        requires
            spec_base_ok(base_addr),
        ensures
            r.name == name,
            r.chip_id == chip_id,
            r.base_addr == base_addr,
            r.wf(),
    {
        NuvotonChip { name, chip_id, base_addr }
    }

    /// The chip's model name.
    pub fn chip_name(&self) -> (r: &str)
        ensures
            r@ == self.name@,
    {
        self.name.as_str()
    }

    /// Read one banked hardware-monitor register: select the bank, write
    /// the register index, read the data byte.
    fn read_register<B: SioBus>(&self, bus: &mut B, bank: u8, reg: u8) -> (r: Result<
        u8,
        NoCrateError,
    >)
        requires
            self.wf(),
        ensures
            old(bus).log().is_prefix_of(final(bus).log()),
            r matches Ok(v) ==> final(bus).log() == old(bus).log() + spec_reg_ops(
                self.base_addr,
                bank,
                reg,
                v,
            ),
    {
        match bus.write_byte(self.base_addr + 0x4E, bank) {
            Ok(()) => (),
            Err(e) => {
                assert(old(bus).log().is_prefix_of(bus.log()));
                return Err(e);
            },
        }
        match bus.write_byte(self.base_addr + 0x05, reg) {
            Ok(()) => (),
            Err(e) => {
                assert(old(bus).log().is_prefix_of(bus.log()));
                return Err(e);
            },
        }
        match bus.read_byte(self.base_addr + 0x06) {
            Ok(v) => {
                assert(bus.log() =~= old(bus).log() + spec_reg_ops(self.base_addr, bank, reg, v));
                assert(old(bus).log().is_prefix_of(bus.log()));
                Ok(v)
            },
            Err(e) => {
                assert(old(bus).log().is_prefix_of(bus.log()));
                Err(e)
            },
        }
    }

    /// Read all seven fan tachometers.
    ///
    /// On success the bus log grew by exactly the 42 operations of the fan
    /// scan, fans are reported for channels 0..7 in order, and each RPM is
    /// the decode of the two count bytes its chunk read.
    pub fn read_fans<B: SioBus>(&self, bus: &mut B) -> (r: Result<Vec<FanReading>, NoCrateError>)
        requires
            self.wf(),
        ensures
            old(bus).log().is_prefix_of(final(bus).log()),
            r matches Ok(fans) ==> {
                &&& final(bus).log().len() == old(bus).log().len() + 42
                &&& spec_fans_ok(
                    self.base_addr,
                    final(bus).log().skip(old(bus).log().len() as int),
                    fans@,
                )
            },
    {
        let ghost pre: Seq<BusOp> = bus.log();
        let mut fans: Vec<FanReading> = Vec::new();
        let mut i: usize = 0;
        while i < 7
            invariant
                self.wf(),
                i <= 7,
                fans@.len() == i as int,
                pre == old(bus).log(),
                bus.log().len() == pre.len() + 6 * (i as int),
                pre.is_prefix_of(bus.log()),
                forall|j: int|
                    0 <= j < i as int ==> spec_fan_chunk_ok(
                        self.base_addr,
                        bus.log().skip(pre.len() as int),
                        fans@,
                        j,
                    ),
            decreases 7 - i,
        {
            let ghost log0: Seq<BusOp> = bus.log();
            let (hi_reg, lo_reg) = fan_regs(i);
            let hi = match self.read_register(bus, 4, hi_reg) {
                Ok(v) => v,
                Err(e) => {
                    proof {
                        lemma_prefix_trans(pre, log0, bus.log());
                    }
                    return Err(e);
                },
            };
            let ghost log1: Seq<BusOp> = bus.log();
            let lo = match self.read_register(bus, 4, lo_reg) {
                Ok(v) => v,
                Err(e) => {
                    proof {
                        lemma_prefix_trans(pre, log0, log1);
                        lemma_prefix_trans(pre, log1, bus.log());
                    }
                    return Err(e);
                },
            };
            let count = count_from_bytes(hi, lo);
            let rpm = rpm_from_count(count);
            let name = fan_name(i);
            let ghost fans0 = fans@;
            fans.push(FanReading { name, rpm, channel: i as u8 });
            proof {
                let cur = bus.log();
                let appended = cur.skip(pre.len() as int);
                let old_appended = log0.skip(pre.len() as int);
                lemma_appended_reads(
                    pre,
                    log0,
                    log1,
                    cur,
                    self.base_addr,
                    4u8,
                    hi_reg,
                    hi,
                    lo_reg,
                    lo,
                );
                assert forall|j: int| 0 <= j < i as int + 1 implies spec_fan_chunk_ok(
                    self.base_addr,
                    appended,
                    fans@,
                    j,
                ) by {
                    if j < i as int {
                        assert(appended[6 * j + 0] == old_appended[6 * j + 0]);
                        assert(appended[6 * j + 1] == old_appended[6 * j + 1]);
                        assert(appended[6 * j + 2] == old_appended[6 * j + 2]);
                        assert(appended[6 * j + 3] == old_appended[6 * j + 3]);
                        assert(appended[6 * j + 4] == old_appended[6 * j + 4]);
                        assert(appended[6 * j + 5] == old_appended[6 * j + 5]);
                        assert(fans@[j] == fans0[j]);
                        assert(spec_fan_chunk_ok(self.base_addr, old_appended, fans0, j));
                    } else {
                        assert(op_byte(appended[6 * j + 2]) == hi);
                        assert(op_byte(appended[6 * j + 5]) == lo);
                        assert(fans@[j].channel as int == j);
                    }
                }
                assert(pre.is_prefix_of(log1)) by {
                    lemma_prefix_trans(pre, log0, log1);
                }
                lemma_prefix_trans(pre, log1, cur);
            }
            i = i + 1;
        }
        Ok(fans)
    }

    /// Read all six temperature channels, discarding implausible values.
    ///
    /// On success the bus log grew by exactly the 36 operations of the
    /// temperature scan, and the readings are exactly the channels whose
    /// decoded half-degree value lies in [-80, 250], in channel order.
    pub fn read_temps<B: SioBus>(&self, bus: &mut B) -> (r: Result<Vec<TempReading>, NoCrateError>)
        requires
            self.wf(),
        ensures
            old(bus).log().is_prefix_of(final(bus).log()),
            r matches Ok(temps) ==> {
                &&& final(bus).log().len() == old(bus).log().len() + 36
                &&& spec_temps_ok(
                    self.base_addr,
                    final(bus).log().skip(old(bus).log().len() as int),
                    temps@,
                )
            },
    {
        let ghost pre: Seq<BusOp> = bus.log();
        let mut temps: Vec<TempReading> = Vec::new();
        let mut i: usize = 0;
        while i < 6
            invariant
                self.wf(),
                i <= 6,
                pre == old(bus).log(),
                bus.log().len() == pre.len() + 6 * (i as int),
                pre.is_prefix_of(bus.log()),
                forall|j: int|
                    0 <= j < i as int ==> spec_temp_chunk_shape(
                        self.base_addr,
                        bus.log().skip(pre.len() as int),
                        j,
                    ),
                forall|k: int|
                    0 <= k < temps@.len() ==> spec_temp_entry_ok(
                        bus.log().skip(pre.len() as int),
                        temps@,
                        k,
                    ),
                forall|k: int| 0 <= k < temps@.len() ==> temps@[k].channel < i as u8,
                forall|k1: int, k2: int|
                    0 <= k1 < k2 < temps@.len() ==> temps@[k1].channel < temps@[k2].channel,
                forall|j: int|
                    0 <= j < i as int && spec_temp_in_range(
                        spec_temp_chunk_val(bus.log().skip(pre.len() as int), j),
                    ) ==> exists|k: int|
                        0 <= k < temps@.len() && temps@[k].channel as int == j,
            decreases 6 - i,
        {
            let ghost log0: Seq<BusOp> = bus.log();
            let ghost temps0 = temps@;
            let (bank, int_reg, frac_reg) = temp_regs(i);
            let raw = match self.read_register(bus, bank, int_reg) {
                Ok(v) => v,
                Err(e) => {
                    proof {
                        lemma_prefix_trans(pre, log0, bus.log());
                    }
                    return Err(e);
                },
            };
            let ghost log1: Seq<BusOp> = bus.log();
            let frac = match self.read_register(bus, bank, frac_reg) {
                Ok(v) => v,
                Err(e) => {
                    proof {
                        lemma_prefix_trans(pre, log0, log1);
                        lemma_prefix_trans(pre, log1, bus.log());
                    }
                    return Err(e);
                },
            };
            let frac_bit = (frac & 0x80) != 0;
            let h = temp_half_from_raw(raw, frac_bit);
            if temp_in_range(h) {
                let name = temp_name(i);
                temps.push(TempReading { name, temp_half_c: h, channel: i as u8 });
            }
            proof {
                let cur = bus.log();
                let appended = cur.skip(pre.len() as int);
                let old_appended = log0.skip(pre.len() as int);
                lemma_appended_reads(
                    pre,
                    log0,
                    log1,
                    cur,
                    self.base_addr,
                    bank,
                    int_reg,
                    raw,
                    frac_reg,
                    frac,
                );
                assert forall|m: int| 0 <= m < 6 * (i as int) implies appended[m]
                    == old_appended[m] by {
                    assert(appended[m] == cur[pre.len() + m]);
                    assert(old_appended[m] == log0[pre.len() + m]);
                }
                assert forall|j: int| 0 <= j < i as int + 1 implies spec_temp_chunk_shape(
                    self.base_addr,
                    appended,
                    j,
                ) by {
                    if j < i as int {
                        assert(spec_temp_chunk_shape(self.base_addr, old_appended, j));
                    }
                }
                assert(op_byte(appended[6 * (i as int) + 2]) == raw);
                assert(op_byte(appended[6 * (i as int) + 5]) == frac);
                assert forall|j: int| 0 <= j < i as int implies spec_temp_chunk_val(appended, j)
                    == spec_temp_chunk_val(old_appended, j) by {
                    assert(appended[6 * j + 2] == old_appended[6 * j + 2]);
                    assert(appended[6 * j + 5] == old_appended[6 * j + 5]);
                }
                assert forall|k: int| 0 <= k < temps@.len() implies spec_temp_entry_ok(
                    appended,
                    temps@,
                    k,
                ) by {
                    if k < temps0.len() {
                        assert(temps@[k] == temps0[k]);
                        assert(spec_temp_entry_ok(old_appended, temps0, k));
                    }
                }
                assert forall|j: int|
                    0 <= j < i as int + 1 && spec_temp_in_range(
                        spec_temp_chunk_val(appended, j),
                    ) implies exists|k: int|
                    0 <= k < temps@.len() && temps@[k].channel as int == j by {
                    if j < i as int {
                        let k = choose|k: int|
                            0 <= k < temps0.len() && temps0[k].channel as int == j;
                        assert(temps@[k].channel as int == j);
                    } else {
                        assert(spec_temp_chunk_val(appended, j) == h as int);
                        assert(temps@[temps@.len() - 1].channel as int == j);
                    }
                }
                assert(pre.is_prefix_of(log1)) by {
                    lemma_prefix_trans(pre, log0, log1);
                }
                lemma_prefix_trans(pre, log1, cur);
            }
            i = i + 1;
        }
        Ok(temps)
    }
}

} // verus!
