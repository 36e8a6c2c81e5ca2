//! ITE IT86xxE sensor register decoding.
//!
//! The Environment Controller exposes an indexed register window: the
//! register index is written to `base + 0x05` and the data byte is read
//! from `base + 0x06`. Fan tachometer counts are 16-bit when bit 6 of
//! configuration register 0x0C is set, else only the low byte counts;
//! temperatures are a signed whole-degree register with no fraction bit.

use vstd::prelude::*;

use crate::bus::{op_byte, BusOp, SioBus};
use crate::chips::{FanReading, TempReading};
use crate::decode::{
    count_from_bytes, rpm_from_count, spec_count_from_bytes, spec_rpm_from_count, spec_temp_half,
    spec_temp_in_range, temp_half_from_raw, temp_in_range,
};
use crate::error::NoCrateError;
use crate::bus::lemma_prefix_trans;
use crate::nuvoton::spec_base_ok;

verus! {

/// A detected ITE IT86xxE chip: its model name, chip ID and the I/O base
/// address of its Environment Controller block.
pub struct IteChip {
    /// Model name, such as "IT8688E".
    pub name: String,
    /// 16-bit chip ID as read from the configuration registers.
    pub chip_id: u16,
    /// Environment Controller I/O base address.
    pub base_addr: u16,
}

/// The two bus operations of one Environment Controller register read:
/// index write, data read.
pub open spec fn spec_ite_reg_ops(base: u16, reg: u8, value: u8) -> Seq<BusOp> {
    seq![
        BusOp::WriteByte { port: (base + 0x05) as u16, value: reg },
        BusOp::ReadByte { port: (base + 0x06) as u16, value: value },
    ]
}

/// The two operations starting at index `n` of `ops` are one register read
/// of `reg`.
pub open spec fn spec_ite_read_at(base: u16, ops: Seq<BusOp>, n: int, reg: u8) -> bool {
    &&& ops[n] == (BusOp::WriteByte { port: (base + 0x05) as u16, value: reg })
    &&& ops[n + 1] == (BusOp::ReadByte {
        port: (base + 0x06) as u16,
        value: op_byte(ops[n + 1]),
    })
}

/// Low-byte tachometer register of fan channel `i`.
pub open spec fn spec_ite_fan_lo_reg(i: int) -> u8 {
    if i == 0 {
        0x0Du8
    } else if i == 1 {
        0x0Eu8
    } else if i == 2 {
        0x0Fu8
    } else if i == 3 {
        0x80u8
    } else if i == 4 {
        0x82u8
    } else {
        0x84u8
    }
}

/// High-byte (extended) tachometer register of fan channel `i`.
pub open spec fn spec_ite_fan_hi_reg(i: int) -> u8 {
    if i == 0 {
        0x18u8
    } else if i == 1 {
        0x19u8
    } else if i == 2 {
        0x1Au8
    } else if i == 3 {
        0x81u8
    } else if i == 4 {
        0x83u8
    } else {
        0x85u8
    }
}

/// Name of fan channel `i`.
pub open spec fn spec_ite_fan_name(i: int) -> Seq<char> {
    if i == 0 {
        "CPU Fan"@
    } else if i == 1 {
        "Chassis #1"@
    } else if i == 2 {
        "Chassis #2"@
    } else if i == 3 {
        "Chassis #3"@
    } else if i == 4 {
        "Chassis #4"@
    } else {
        "Chassis #5"@
    }
}

/// Temperature register of channel `i`.
pub open spec fn spec_ite_temp_reg(i: int) -> u8 {
    if i == 0 {
        0x29u8
    } else if i == 1 {
        0x2Au8
    } else {
        0x2Bu8
    }
}

/// Name of temperature channel `i`.
pub open spec fn spec_ite_temp_name(i: int) -> Seq<char> {
    if i == 0 {
        "CPU"@
    } else if i == 1 {
        "Mainboard"@
    } else {
        "Auxiliary"@
    }
}

/// The model-name table for ITE chips, keyed by the exact chip ID.
pub open spec fn spec_ite_model_of(chip_id: u16) -> Option<Seq<char>> {
    if chip_id == 0x8688 {
        Some("IT8688E"@)
    } else if chip_id == 0x8689 {
        Some("IT8689E"@)
    } else if chip_id == 0x8695 {
        Some("IT8695E"@)
    } else if chip_id == 0x8686 {
        Some("IT8686E"@)
    } else if chip_id == 0x8628 {
        Some("IT8628E"@)
    } else {
        None
    }
}

/// Whether the chip model exposes a sixth fan channel.
pub open spec fn spec_has_6_fans(chip_id: u16) -> bool {
    chip_id == 0x8689 || chip_id == 0x8695
}

/// Whether the configuration byte the scan read first put the controller
/// in 16-bit tachometer mode (bit 6).
pub open spec fn spec_ite_sixteen_bit(ops: Seq<BusOp>) -> bool {
    (op_byte(ops[1]) & 0x40u8) != 0
}

/// The operations one fan chunk occupies: two register reads in 16-bit
/// mode, one otherwise.
pub open spec fn spec_ite_chunk_width(sixteen: bool) -> int {
    if sixteen {
        4int
    } else {
        2int
    }
}

/// The tachometer count decoded from the chunk at offset `n`: both bytes
/// when the controller is in 16-bit mode, else the low byte alone.
pub open spec fn spec_ite_count(ops: Seq<BusOp>, n: int, sixteen: bool) -> u16 {
    if sixteen {
        spec_count_from_bytes(op_byte(ops[n + 3]), op_byte(ops[n + 1]))
    } else {
        op_byte(ops[n + 1]) as u16
    }
}

/// The chunk of fan channel `i` and the reading derived from it. In 16-bit
/// mode the chunk is the low-byte read followed by the high-byte read;
/// otherwise it is the low-byte read alone.
pub open spec fn spec_ite_fan_chunk_ok(
    base: u16,
    ops: Seq<BusOp>,
    fans: Seq<FanReading>,
    i: int,
    sixteen: bool,
) -> bool {
    let n = 2 + spec_ite_chunk_width(sixteen) * i;
    &&& spec_ite_read_at(base, ops, n, spec_ite_fan_lo_reg(i))
    &&& sixteen ==> spec_ite_read_at(base, ops, n + 2, spec_ite_fan_hi_reg(i))
    &&& fans[i].name@ == spec_ite_fan_name(i)
    &&& fans[i].channel as int == i
    &&& fans[i].rpm == spec_rpm_from_count(spec_ite_count(ops, n, sixteen))
}

/// A complete ITE fan scan: the configuration-register read, then one
/// chunk per channel, each decoded under the mode bit 6 of the
/// configuration byte that came back.
pub open spec fn spec_ite_fans_ok(
    base: u16,
    ops: Seq<BusOp>,
    fans: Seq<FanReading>,
    nfans: int,
) -> bool {
    &&& ops.len() >= 2
    &&& spec_ite_read_at(base, ops, 0, 0x0Cu8)
    &&& ops.len() == 2 + spec_ite_chunk_width(spec_ite_sixteen_bit(ops)) * nfans
    &&& fans.len() == nfans
    &&& forall|i: int|
        0 <= i < nfans ==> #[trigger] spec_ite_fan_chunk_ok(
            base,
            ops,
            fans,
            i,
            spec_ite_sixteen_bit(ops),
        )
}

/// The RPM law on the ITE scan: every channel of a well-formed scan
/// reports the decode of its chunk's tachometer count — zero on the two
/// sentinels, else the integer quotient of the tachometer clock by the
/// count.
pub proof fn lemma_ite_fan_rpm(
    base: u16,
    ops: Seq<BusOp>,
    fans: Seq<FanReading>,
    nfans: int,
    i: int,
)
    requires
        spec_ite_fans_ok(base, ops, fans, nfans),
        0 <= i < nfans,
    ensures
        fans[i].rpm == spec_rpm_from_count(
            spec_ite_count(
                ops,
                2 + spec_ite_chunk_width(spec_ite_sixteen_bit(ops)) * i,
                spec_ite_sixteen_bit(ops),
            ),
        ),
        fans[i].channel as int == i,
{
    assert(spec_ite_fan_chunk_ok(base, ops, fans, i, spec_ite_sixteen_bit(ops)));
}

/// The half-degree temperature decoded from ITE channel `i`: twice the
/// signed whole-degree byte, with no fraction bit.
pub open spec fn spec_ite_temp_val(ops: Seq<BusOp>, i: int) -> int {
    spec_temp_half(op_byte(ops[2 * i + 1]), false)
}

/// Reading `k` of an ITE temperature scan is a faithful decode of its
/// channel's register and lies in the plausible range.
pub open spec fn spec_ite_temp_entry_ok(ops: Seq<BusOp>, temps: Seq<TempReading>, k: int) -> bool {
    let i = temps[k].channel as int;
    &&& 0 <= i < 3
    &&& temps[k].name@ == spec_ite_temp_name(i)
    &&& temps[k].temp_half_c as int == spec_ite_temp_val(ops, i)
    &&& spec_temp_in_range(temps[k].temp_half_c as int)
}

/// A complete ITE temperature scan: 6 operations, every chunk well formed;
/// the readings are exactly the in-range channels, in channel order.
pub open spec fn spec_ite_temps_ok(base: u16, ops: Seq<BusOp>, temps: Seq<TempReading>) -> bool {
    &&& ops.len() == 6
    &&& forall|i: int| 0 <= i < 3 ==> spec_ite_read_at(base, ops, 2 * i, #[trigger] spec_ite_temp_reg(i))
    &&& forall|k: int| 0 <= k < temps.len() ==> spec_ite_temp_entry_ok(ops, temps, k)
    &&& forall|k1: int, k2: int|
        0 <= k1 < k2 < temps.len() ==> temps[k1].channel < temps[k2].channel
    &&& forall|i: int|
        0 <= i < 3 && spec_temp_in_range(#[trigger] spec_ite_temp_val(ops, i))
            ==> exists|k: int| 0 <= k < temps.len() && temps[k].channel as int == i
}

/// After one register read appended its two operations to a log that
/// already extended `pre` by `log0`, the tail past `pre` carries the read
/// shape at the expected offset, and everything before is unchanged.
proof fn lemma_ite_appended_read(
    pre: Seq<BusOp>,
    log0: Seq<BusOp>,
    cur: Seq<BusOp>,
    base: u16,
    reg: u8,
    v: u8,
)
    requires
        pre.len() <= log0.len(),
        cur == log0 + spec_ite_reg_ops(base, reg, v),
    ensures
        cur.len() == log0.len() + 2,
        forall|m: int| 0 <= m < log0.len() ==> cur[m] == log0[m],
        spec_ite_read_at(base, cur.skip(pre.len() as int), log0.len() - pre.len(), reg),
        op_byte(cur.skip(pre.len() as int)[log0.len() - pre.len() + 1]) == v,
{
    let a = spec_ite_reg_ops(base, reg, v);
    let app = cur.skip(pre.len() as int);
    let n = log0.len() as int - pre.len() as int;
    assert(app[n + 0] == cur[log0.len() as int + 0]);
    assert(app[n + 1] == cur[log0.len() as int + 1]);
    assert(cur[log0.len() as int + 0] == a[0]);
    assert(cur[log0.len() as int + 1] == a[1]);
}

/// Low- and high-byte tachometer registers of fan channel `i`.
fn ite_fan_regs(i: usize) -> (r: (u8, u8))
    requires
        i < 6,
    ensures
        r.0 == spec_ite_fan_lo_reg(i as int),
        r.1 == spec_ite_fan_hi_reg(i as int),
{
    match i {
        0 => (0x0D, 0x18),
        1 => (0x0E, 0x19),
        2 => (0x0F, 0x1A),
        3 => (0x80, 0x81),
        4 => (0x82, 0x83),
        _ => (0x84, 0x85),
    }
}

/// Name of fan channel `i`.
fn ite_fan_name(i: usize) -> (r: String)
    requires
        i < 6,
    ensures
        r@ == spec_ite_fan_name(i as int),
{
    match i {
        0 => "CPU Fan".to_owned(),
        1 => "Chassis #1".to_owned(),
        2 => "Chassis #2".to_owned(),
        3 => "Chassis #3".to_owned(),
        4 => "Chassis #4".to_owned(),
        _ => "Chassis #5".to_owned(),
    }
}

/// Register and name of temperature channel `i`.
fn ite_temp_reg(i: usize) -> (r: u8)
    requires
        i < 3,
    ensures
        r == spec_ite_temp_reg(i as int),
{
    match i {
        0 => 0x29,
        1 => 0x2A,
        _ => 0x2B,
    }
}

/// Name of temperature channel `i`.
fn ite_temp_name(i: usize) -> (r: String)
    requires
        i < 3,
    ensures
        r@ == spec_ite_temp_name(i as int),
{
    match i {
        0 => "CPU".to_owned(),
        1 => "Mainboard".to_owned(),
        _ => "Auxiliary".to_owned(),
    }
}

impl IteChip {
    /// Whether the chip's base address is usable for register access.
    pub open spec fn wf(&self) -> bool {
        spec_base_ok(self.base_addr)
    }

    /// A chip instance for a detected model.
    pub fn new(name: String, chip_id: u16, base_addr: u16) -> (r: IteChip)
        requires
            spec_base_ok(base_addr),
        ensures
            r.name == name,
            r.chip_id == chip_id,
            r.base_addr == base_addr,
            r.wf(),
    {
        IteChip { name, chip_id, base_addr }
    }

    /// The chip's model name.
    pub fn chip_name(&self) -> (r: &str)
        ensures
            r@ == self.name@,
    {
        self.name.as_str()
    }

    /// Whether this chip model exposes a sixth fan channel.
    pub fn has_6_fans(&self) -> (r: bool)
        ensures
            r == spec_has_6_fans(self.chip_id),
    {
        self.chip_id == 0x8689 || self.chip_id == 0x8695
    }

    /// Read one Environment Controller register: write the index, read the
    /// data byte.
    fn read_register<B: SioBus>(&self, bus: &mut B, reg: u8) -> (r: Result<u8, NoCrateError>)
        requires
            self.wf(),
        ensures
            old(bus).log().is_prefix_of(final(bus).log()),
            r matches Ok(v) ==> final(bus).log() == old(bus).log() + spec_ite_reg_ops(
                self.base_addr,
                reg,
                v,
            ),
    {
        match bus.write_byte(self.base_addr + 0x05, reg) {
            Ok(()) => (),
            Err(e) => {
                assert(old(bus).log().is_prefix_of(bus.log()));
                return Err(e);
            },
        }
        match bus.read_byte(self.base_addr + 0x06) {
            Ok(v) => {
                assert(bus.log() =~= old(bus).log() + spec_ite_reg_ops(self.base_addr, reg, v));
                assert(old(bus).log().is_prefix_of(bus.log()));
                Ok(v)
            },
            Err(e) => {
                assert(old(bus).log().is_prefix_of(bus.log()));
                Err(e)
            },
        }
    }

    /// Read the fan tachometers: the configuration register first, then
    /// the five (or, on six-fan models, six) tachometer channels, decoded
    /// under the 16-bit mode bit of the configuration byte.
    pub fn read_fans<B: SioBus>(&self, bus: &mut B) -> (r: Result<Vec<FanReading>, NoCrateError>)
        requires
            self.wf(),
        ensures
            old(bus).log().is_prefix_of(final(bus).log()),
            r matches Ok(fans) ==> spec_ite_fans_ok(
                self.base_addr,
                final(bus).log().skip(old(bus).log().len() as int),
                fans@,
                if spec_has_6_fans(self.chip_id) {
                    6int
                } else {
                    5int
                },
            ),
    {
        let ghost pre: Seq<BusOp> = bus.log();
        let config = match self.read_register(bus, 0x0C) {
            Ok(v) => v,
            Err(e) => {
                return Err(e);
            },
        };
        let sixteen = (config & 0x40) != 0;
        let ghost w: int = if sixteen {
            4
        } else {
            2
        };
        let nfans: usize = if self.has_6_fans() {
            6
        } else {
            5
        };
        let mut fans: Vec<FanReading> = Vec::new();
        let mut i: usize = 0;
        proof {
            assert(spec_ite_read_at(self.base_addr, bus.log().skip(pre.len() as int), 0, 0x0Cu8));
            assert(op_byte(bus.log().skip(pre.len() as int)[1]) == config);
        }
        while i < nfans
            invariant
                self.wf(),
                i <= nfans,
                nfans == if spec_has_6_fans(self.chip_id) {
                    6int
                } else {
                    5int
                },
                w == if sixteen {
                    4int
                } else {
                    2int
                },
                fans@.len() == i as int,
                pre == old(bus).log(),
                bus.log().len() == pre.len() + 2 + w * (i as int),
                pre.is_prefix_of(bus.log()),
                spec_ite_read_at(self.base_addr, bus.log().skip(pre.len() as int), 0, 0x0Cu8),
                op_byte(bus.log().skip(pre.len() as int)[1]) == config,
                sixteen == ((config & 0x40u8) != 0),
                forall|j: int|
                    0 <= j < i as int ==> spec_ite_fan_chunk_ok(
                        self.base_addr,
                        bus.log().skip(pre.len() as int),
                        fans@,
                        j,
                        sixteen,
                    ),
            decreases nfans - i,
        {
            let ghost log0: Seq<BusOp> = bus.log();
            let (lo_reg, hi_reg) = ite_fan_regs(i);
            let lo = match self.read_register(bus, lo_reg) {
                Ok(v) => v,
                Err(e) => {
                    proof {
                        lemma_prefix_trans(pre, log0, bus.log());
                    }
                    return Err(e);
                },
            };
            let ghost log1: Seq<BusOp> = bus.log();
            let count: u16 = if sixteen {
                let hi = match self.read_register(bus, hi_reg) {
                    Ok(v) => v,
                    Err(e) => {
                        proof {
                            lemma_prefix_trans(pre, log0, log1);
                            lemma_prefix_trans(pre, log1, bus.log());
                        }
                        return Err(e);
                    },
                };
                count_from_bytes(hi, lo)
            } else {
                lo as u16
            };
            let rpm = rpm_from_count(count);
            let name = ite_fan_name(i);
            let ghost fans0 = fans@;
            fans.push(FanReading { name, rpm, channel: i as u8 });
            proof {
                let cur = bus.log();
                let appended = cur.skip(pre.len() as int);
                let old_appended = log0.skip(pre.len() as int);
                if sixteen {
                    lemma_ite_appended_read(pre, log0, log1, self.base_addr, lo_reg, lo);
                    lemma_ite_appended_read(
                        pre,
                        log1,
                        cur,
                        self.base_addr,
                        hi_reg,
                        op_byte(cur[cur.len() - 1]),
                    );
                } else {
                    lemma_ite_appended_read(pre, log0, cur, self.base_addr, lo_reg, lo);
                }
                assert forall|m: int| 0 <= m < log0.len() - pre.len() implies appended[m]
                    == old_appended[m] by {
                    assert(appended[m] == cur[pre.len() + m]);
                    assert(old_appended[m] == log0[pre.len() + m]);
                }
                assert forall|j: int| 0 <= j < i as int + 1 implies spec_ite_fan_chunk_ok(
                    self.base_addr,
                    appended,
                    fans@,
                    j,
                    sixteen,
                ) by {
                    if j < i as int {
                        assert(fans@[j] == fans0[j]);
                        assert(spec_ite_fan_chunk_ok(
                            self.base_addr,
                            old_appended,
                            fans0,
                            j,
                            sixteen,
                        ));
                    } else {
                        let n = 2 + w * j;
                        assert(op_byte(appended[n + 1]) == lo);
                        assert(fans@[j].channel as int == j);
                    }
                }
                lemma_prefix_trans(pre, log0, cur);
            }
            i = i + 1;
        }
        Ok(fans)
    }

    /// Read the three temperature channels, discarding implausible values.
    ///
    /// On success the bus log grew by exactly the 6 operations of the
    /// temperature scan, and the readings are exactly the channels whose
    /// signed whole-degree value lies in [-40, 125], in channel order.
    pub fn read_temps<B: SioBus>(&self, bus: &mut B) -> (r: Result<Vec<TempReading>, NoCrateError>)
        requires
            self.wf(),
        ensures
            old(bus).log().is_prefix_of(final(bus).log()),
            r matches Ok(temps) ==> spec_ite_temps_ok(
                self.base_addr,
                final(bus).log().skip(old(bus).log().len() as int),
                temps@,
            ),
    {
        let ghost pre: Seq<BusOp> = bus.log();
        let mut temps: Vec<TempReading> = Vec::new();
        let mut i: usize = 0;
        while i < 3
            invariant
                self.wf(),
                i <= 3,
                pre == old(bus).log(),
                bus.log().len() == pre.len() + 2 * (i as int),
                pre.is_prefix_of(bus.log()),
                forall|j: int|
                    0 <= j < i as int ==> spec_ite_read_at(
                        self.base_addr,
                        bus.log().skip(pre.len() as int),
                        2 * j,
                        #[trigger] spec_ite_temp_reg(j),
                    ),
                forall|k: int|
                    0 <= k < temps@.len() ==> spec_ite_temp_entry_ok(
                        bus.log().skip(pre.len() as int),
                        temps@,
                        k,
                    ),
                forall|k: int| 0 <= k < temps@.len() ==> temps@[k].channel < i as u8,
                forall|k1: int, k2: int|
                    0 <= k1 < k2 < temps@.len() ==> temps@[k1].channel < temps@[k2].channel,
                forall|j: int|
                    0 <= j < i as int && spec_temp_in_range(
                        #[trigger] spec_ite_temp_val(bus.log().skip(pre.len() as int), j),
                    ) ==> exists|k: int|
                        0 <= k < temps@.len() && temps@[k].channel as int == j,
            decreases 3 - i,
        {
            let ghost log0: Seq<BusOp> = bus.log();
            let ghost temps0 = temps@;
            let reg = ite_temp_reg(i);
            let raw = match self.read_register(bus, reg) {
                Ok(v) => v,
                Err(e) => {
                    proof {
                        lemma_prefix_trans(pre, log0, bus.log());
                    }
                    return Err(e);
                },
            };
            let h = temp_half_from_raw(raw, false);
            if temp_in_range(h) {
                let name = ite_temp_name(i);
                temps.push(TempReading { name, temp_half_c: h, channel: i as u8 });
            }
            proof {
                let cur = bus.log();
                let appended = cur.skip(pre.len() as int);
                let old_appended = log0.skip(pre.len() as int);
                lemma_ite_appended_read(pre, log0, cur, self.base_addr, reg, raw);
                assert forall|m: int| 0 <= m < 2 * (i as int) implies appended[m]
                    == old_appended[m] by {
                    assert(appended[m] == cur[pre.len() + m]);
                    assert(old_appended[m] == log0[pre.len() + m]);
                }
                assert(op_byte(appended[2 * (i as int) + 1]) == raw);
                assert forall|k: int| 0 <= k < temps@.len() implies spec_ite_temp_entry_ok(
                    appended,
                    temps@,
                    k,
                ) by {
                    if k < temps0.len() {
                        assert(temps@[k] == temps0[k]);
                        assert(spec_ite_temp_entry_ok(old_appended, temps0, k));
                    }
                }
                assert forall|j: int|
                    0 <= j < i as int + 1 && spec_temp_in_range(
                        spec_ite_temp_val(appended, j),
                    ) implies exists|k: int|
                    0 <= k < temps@.len() && temps@[k].channel as int == j by {
                    if j < i as int {
                        assert(appended[2 * j + 1] == old_appended[2 * j + 1]);
                        assert(spec_ite_temp_val(appended, j) == spec_ite_temp_val(
                            old_appended,
                            j,
                        ));
                        let k = choose|k: int|
                            0 <= k < temps0.len() && temps0[k].channel as int == j;
                        assert(temps@[k].channel as int == j);
                    } else {
                        assert(spec_ite_temp_val(appended, j) == h as int);
                        assert(temps@[temps@.len() - 1].channel as int == j);
                    }
                }
                lemma_prefix_trans(pre, log0, cur);
            }
            i = i + 1;
        }
        Ok(temps)
    }
}

} // verus!
