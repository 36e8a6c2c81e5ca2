//! Super I/O chip detection.
//!
//! The two legacy configuration ports 0x2E and 0x4E are probed in order,
//! trying the Nuvoton entry sequence first and the ITE key sequence
//! second. A probe reads the two chip-ID registers and matches them
//! against the fixed model table of its family; on a match it selects the
//! family's hardware-monitor logical device, reads its base address and
//! leaves configuration mode. A probe that misses leaves configuration
//! mode and reports nothing. No match on either port is a terminal
//! "unsupported or absent hardware" failure.

use vstd::prelude::*;

use crate::bus::{lemma_prefix_trans, op_byte, BusOp, SioBus};
use crate::chips::{FanReading, TempReading};
use crate::decode::{count_from_bytes, spec_count_from_bytes};
use crate::error::NoCrateError;
use crate::ite::{spec_ite_fans_ok, spec_ite_temps_ok, IteChip};
use crate::ite::{spec_has_6_fans, spec_ite_model_of};
use crate::lpc::enable_lpc_io_decode;
use crate::nuvoton::{spec_base_ok, spec_fans_ok, spec_temps_ok, NuvotonChip};
use crate::nuvoton::spec_nuvoton_model_of;

verus! {

/// A detected Super I/O chip, as a closed union of the two supported
/// families.
pub enum Chip {
    /// A Nuvoton NCT67xxD.
    Nuvoton(NuvotonChip),
    /// An ITE IT86xxE.
    Ite(IteChip),
}

/// A chip whose identity is consistent: the base address is usable and
/// the model name is the one its family's table gives for its chip ID.
pub open spec fn spec_chip_valid(chip: Chip) -> bool {
    match chip {
        Chip::Nuvoton(c) => {
            &&& c.wf()
            &&& spec_nuvoton_model_of((c.chip_id & 0xFFF0u16) as u16) matches Some(n)
                && c.name@ == n
        },
        Chip::Ite(c) => {
            &&& c.wf()
            &&& spec_ite_model_of(c.chip_id) matches Some(n) && c.name@ == n
        },
    }
}

impl Chip {
    /// Whether the chip's base address is usable for register access.
    pub open spec fn wf(&self) -> bool {
        match self {
            Chip::Nuvoton(c) => c.wf(),
            Chip::Ite(c) => c.wf(),
        }
    }

    /// The chip's model name.
    pub fn chip_name(&self) -> (r: &str)
        ensures
            r@ == match self {
                Chip::Nuvoton(c) => c.name@,
                Chip::Ite(c) => c.name@,
            },
    {
        match self {
            Chip::Nuvoton(c) => c.chip_name(),
            Chip::Ite(c) => c.chip_name(),
        }
    }

    /// Read all fan tachometers of the detected chip.
    pub fn read_fans<B: SioBus>(&self, bus: &mut B) -> (r: Result<Vec<FanReading>, NoCrateError>)
        requires
            self.wf(),
        ensures
            old(bus).log().is_prefix_of(final(bus).log()),
            r matches Ok(fans) ==> match self {
                Chip::Nuvoton(c) => final(bus).log().len() == old(bus).log().len() + 42
                    && spec_fans_ok(
                    c.base_addr,
                    final(bus).log().skip(old(bus).log().len() as int),
                    fans@,
                ),
                Chip::Ite(c) => spec_ite_fans_ok(
                    c.base_addr,
                    final(bus).log().skip(old(bus).log().len() as int),
                    fans@,
                    if spec_has_6_fans(c.chip_id) {
                        6int
                    } else {
                        5int
                    },
                ),
            },
    {
        match self {
            Chip::Nuvoton(c) => c.read_fans(bus),
            Chip::Ite(c) => c.read_fans(bus),
        }
    }

    /// Read all temperature channels of the detected chip.
    pub fn read_temps<B: SioBus>(&self, bus: &mut B) -> (r: Result<Vec<TempReading>, NoCrateError>)
        requires
            self.wf(),
        ensures
            old(bus).log().is_prefix_of(final(bus).log()),
            r matches Ok(temps) ==> match self {
                Chip::Nuvoton(c) => final(bus).log().len() == old(bus).log().len() + 36
                    && spec_temps_ok(
                    c.base_addr,
                    final(bus).log().skip(old(bus).log().len() as int),
                    temps@,
                ),
                Chip::Ite(c) => spec_ite_temps_ok(
                    c.base_addr,
                    final(bus).log().skip(old(bus).log().len() as int),
                    temps@,
                ),
            },
    {
        match self {
            Chip::Nuvoton(c) => c.read_temps(bus),
            Chip::Ite(c) => c.read_temps(bus),
        }
    }
}

/// Model name for a Nuvoton chip ID, looked up by the masked ID
/// (the low nibble is the silicon revision and is ignored).
pub fn nuvoton_model(chip_id: u16) -> (r: Option<String>)
    ensures
        r matches Some(name) ==> spec_nuvoton_model_of((chip_id & 0xFFF0u16) as u16)
            matches Some(n) && name@ == n,
        r is None <==> spec_nuvoton_model_of((chip_id & 0xFFF0u16) as u16) is None,
{
    let masked = chip_id & 0xFFF0;
    if masked == 0xD420 {
        Some("NCT6796D".to_owned())
    } else if masked == 0xD450 {
        Some("NCT6797D".to_owned())
    } else if masked == 0xD580 {
        Some("NCT6798D".to_owned())
    } else if masked == 0xD800 {
        Some("NCT6799D".to_owned())
    } else if masked == 0xC800 {
        Some("NCT6791D".to_owned())
    } else if masked == 0xC910 {
        Some("NCT6792D".to_owned())
    } else if masked == 0xC950 {
        Some("NCT6795D".to_owned())
    } else {
        None
    }
}

/// Model name for an ITE chip ID, looked up exactly.
pub fn ite_model(chip_id: u16) -> (r: Option<String>)
    ensures
        r matches Some(name) ==> spec_ite_model_of(chip_id) matches Some(n) && name@ == n,
        r is None <==> spec_ite_model_of(chip_id) is None,
{
    if chip_id == 0x8688 {
        Some("IT8688E".to_owned())
    } else if chip_id == 0x8689 {
        Some("IT8689E".to_owned())
    } else if chip_id == 0x8695 {
        Some("IT8695E".to_owned())
    } else if chip_id == 0x8686 {
        Some("IT8686E".to_owned())
    } else if chip_id == 0x8628 {
        Some("IT8628E".to_owned())
    } else {
        None
    }
}

/// Every masked chip ID in the Nuvoton table selects exactly its model,
/// and every other masked ID selects none.
pub proof fn lemma_nuvoton_table_exact()
    ensures
        spec_nuvoton_model_of(0xD420u16) == Some("NCT6796D"@),
        spec_nuvoton_model_of(0xD450u16) == Some("NCT6797D"@),
        spec_nuvoton_model_of(0xD580u16) == Some("NCT6798D"@),
        spec_nuvoton_model_of(0xD800u16) == Some("NCT6799D"@),
        spec_nuvoton_model_of(0xC800u16) == Some("NCT6791D"@),
        spec_nuvoton_model_of(0xC910u16) == Some("NCT6792D"@),
        spec_nuvoton_model_of(0xC950u16) == Some("NCT6795D"@),
        forall|masked: u16|
            !(masked == 0xD420 || masked == 0xD450 || masked == 0xD580 || masked == 0xD800
                || masked == 0xC800 || masked == 0xC910 || masked == 0xC950)
                ==> #[trigger] spec_nuvoton_model_of(masked) is None,
{
}

/// The first six operations of a Nuvoton probe: the entry sequence (0x87
/// twice) and the two chip-ID register reads.
pub open spec fn spec_nuv_probe_prefix(port: u16, app: Seq<BusOp>) -> bool {
    &&& app.len() >= 6
    &&& app[0] == (BusOp::WriteByte { port, value: 0x87u8 })
    &&& app[1] == (BusOp::WriteByte { port, value: 0x87u8 })
    &&& app[2] == (BusOp::WriteByte { port, value: 0x20u8 })
    &&& app[3] == (BusOp::ReadByte { port: (port + 1) as u16, value: op_byte(app[3]) })
    &&& app[4] == (BusOp::WriteByte { port, value: 0x21u8 })
    &&& app[5] == (BusOp::ReadByte { port: (port + 1) as u16, value: op_byte(app[5]) })
}

/// The chip ID assembled from the two ID bytes a Nuvoton probe read.
pub open spec fn spec_nuv_probe_id(app: Seq<BusOp>) -> u16 {
    spec_count_from_bytes(op_byte(app[3]), op_byte(app[5]))
}

/// Operations 6..13 of a matching Nuvoton probe: logical-device select
/// (0x0B), the two base-address register reads, and the exit byte.
pub open spec fn spec_nuv_base_ops(port: u16, app: Seq<BusOp>) -> bool {
    &&& app.len() >= 13
    &&& app[6] == (BusOp::WriteByte { port, value: 0x07u8 })
    &&& app[7] == (BusOp::WriteByte { port: (port + 1) as u16, value: 0x0Bu8 })
    &&& app[8] == (BusOp::WriteByte { port, value: 0x60u8 })
    &&& app[9] == (BusOp::ReadByte { port: (port + 1) as u16, value: op_byte(app[9]) })
    &&& app[10] == (BusOp::WriteByte { port, value: 0x61u8 })
    &&& app[11] == (BusOp::ReadByte { port: (port + 1) as u16, value: op_byte(app[11]) })
    &&& app[12] == (BusOp::WriteByte { port, value: 0xAAu8 })
}

/// The base address assembled from the two bytes a Nuvoton probe read.
pub open spec fn spec_nuv_probe_base(app: Seq<BusOp>) -> u16 {
    spec_count_from_bytes(op_byte(app[9]), op_byte(app[11]))
}

/// The operation a Nuvoton probe performs at offset `m` of its appended
/// log: the entry and ID sequence, then — once the ID matched the table —
/// the logical-device and base-address operations, else the exit byte.
pub open spec fn spec_nuv_probe_op(port: u16, app: Seq<BusOp>, m: int) -> bool {
    if m == 0 || m == 1 {
        app[m] == (BusOp::WriteByte { port, value: 0x87u8 })
    } else if m == 2 {
        app[m] == (BusOp::WriteByte { port, value: 0x20u8 })
    } else if m == 3 || m == 5 {
        app[m] == (BusOp::ReadByte { port: (port + 1) as u16, value: op_byte(app[m]) })
    } else if m == 4 {
        app[m] == (BusOp::WriteByte { port, value: 0x21u8 })
    } else if m == 6 {
        if spec_nuvoton_model_of((spec_nuv_probe_id(app) & 0xFFF0u16) as u16) is None {
            app[m] == (BusOp::WriteByte { port, value: 0xAAu8 })
        } else {
            app[m] == (BusOp::WriteByte { port, value: 0x07u8 })
        }
    } else if m == 7 {
        app[m] == (BusOp::WriteByte { port: (port + 1) as u16, value: 0x0Bu8 })
    } else if m == 8 {
        app[m] == (BusOp::WriteByte { port, value: 0x60u8 })
    } else if m == 9 || m == 11 {
        app[m] == (BusOp::ReadByte { port: (port + 1) as u16, value: op_byte(app[m]) })
    } else if m == 10 {
        app[m] == (BusOp::WriteByte { port, value: 0x61u8 })
    } else {
        app[m] == (BusOp::WriteByte { port, value: 0xAAu8 })
    }
}

/// Whatever a Nuvoton probe appended — complete, or cut short by a bus
/// failure — follows the probe script and nothing else: the entry and ID
/// operations first; past them only a table hit continues; past the
/// thirteen probe operations only full success continues, where the LPC
/// enable step appends its own operations. A failing probe writes no
/// stray bytes.
pub open spec fn spec_nuv_probe_partial(port: u16, app: Seq<BusOp>) -> bool {
    &&& forall|m: int| 0 <= m < app.len() && m < 13 ==> #[trigger] spec_nuv_probe_op(port, app, m)
    &&& app.len() > 6 && spec_nuvoton_model_of((spec_nuv_probe_id(app) & 0xFFF0u16) as u16)
        is None ==> app.len() == 7
    &&& app.len() > 13 ==> spec_nuvoton_model_of((spec_nuv_probe_id(app) & 0xFFF0u16) as u16)
        is Some && spec_base_ok(spec_nuv_probe_base(app))
}

/// A completed Nuvoton probe that reported no chip: a table miss that
/// exited configuration mode, or a table hit whose base address read back
/// unusable.
pub open spec fn spec_nuv_probe_none(port: u16, app: Seq<BusOp>) -> bool {
    &&& spec_nuv_probe_prefix(port, app)
    &&& if spec_nuvoton_model_of((spec_nuv_probe_id(app) & 0xFFF0u16) as u16) is None {
        app.len() == 7 && app[6] == (BusOp::WriteByte { port, value: 0xAAu8 })
    } else {
        &&& spec_nuv_base_ops(port, app)
        &&& app.len() == 13
        &&& !spec_base_ok(spec_nuv_probe_base(app))
    }
}

/// Probe one configuration port for a Nuvoton chip.
///
/// The result is pinned to the log: the probe prefix is always performed;
/// if the ID read is not in the model table, the probe exits configuration
/// mode and reports nothing; if it is, the base address is read, and a
/// chip is reported exactly when that base is usable (nonzero and below
/// 0xFF00 — a base at 0xFF00 or above would wrap the 16-bit port space).
pub fn try_nuvoton<B: SioBus>(bus: &mut B, port: u16) -> (r: Result<Option<NuvotonChip>, NoCrateError>)
    requires
        port == 0x2E || port == 0x4E,
    ensures
        old(bus).log().is_prefix_of(final(bus).log()),
        spec_nuv_probe_partial(port, final(bus).log().skip(old(bus).log().len() as int)),
        r matches Ok(res) ==> {
            let app = final(bus).log().skip(old(bus).log().len() as int);
            &&& final(bus).log().len() >= old(bus).log().len()
            &&& spec_nuv_probe_prefix(port, app)
            &&& spec_nuvoton_model_of((spec_nuv_probe_id(app) & 0xFFF0u16) as u16) is None
                ==> res is None && app.len() == 7 && app[6] == (BusOp::WriteByte {
                port,
                value: 0xAAu8,
            })
            &&& spec_nuvoton_model_of((spec_nuv_probe_id(app) & 0xFFF0u16) as u16) is Some ==> {
                &&& spec_nuv_base_ops(port, app)
                &&& (res is None <==> !spec_base_ok(spec_nuv_probe_base(app)))
                &&& res matches Some(chip) ==> {
                    &&& chip.chip_id == spec_nuv_probe_id(app)
                    &&& chip.base_addr == spec_nuv_probe_base(app)
                    &&& spec_chip_valid(Chip::Nuvoton(chip))
                }
            }
        },
{
    let ghost pre: Seq<BusOp> = bus.log();
    let data_port = port + 1;

    match bus.write_byte(port, 0x87) {
        Ok(()) => (),
        Err(e) => {
            proof {
                let app = bus.log().skip(pre.len() as int);
                assert(pre.is_prefix_of(bus.log())) by {
                    assert(pre =~= bus.log().subrange(0, pre.len() as int));
                }
                assert forall|m: int| 0 <= m < app.len() && m < 13 implies spec_nuv_probe_op(
                    port,
                    app,
                    m,
                ) by {
                    assert(app[m] == bus.log()[pre.len() as int + m]);
                }
            }
            return Err(e);
        },
    }
    match bus.write_byte(port, 0x87) {
        Ok(()) => (),
        Err(e) => {
            proof {
                let app = bus.log().skip(pre.len() as int);
                assert(pre.is_prefix_of(bus.log())) by {
                    assert(pre =~= bus.log().subrange(0, pre.len() as int));
                }
                assert forall|m: int| 0 <= m < app.len() && m < 13 implies spec_nuv_probe_op(
                    port,
                    app,
                    m,
                ) by {
                    assert(app[m] == bus.log()[pre.len() as int + m]);
                }
            }
            return Err(e);
        },
    }
    match bus.write_byte(port, 0x20) {
        Ok(()) => (),
        Err(e) => {
            proof {
                let app = bus.log().skip(pre.len() as int);
                assert(pre.is_prefix_of(bus.log())) by {
                    assert(pre =~= bus.log().subrange(0, pre.len() as int));
                }
                assert forall|m: int| 0 <= m < app.len() && m < 13 implies spec_nuv_probe_op(
                    port,
                    app,
                    m,
                ) by {
                    assert(app[m] == bus.log()[pre.len() as int + m]);
                }
            }
            return Err(e);
        },
    }
    let id_high = match bus.read_byte(data_port) {
        Ok(v) => v,
        Err(e) => {
            proof {
                let app = bus.log().skip(pre.len() as int);
                assert(pre.is_prefix_of(bus.log())) by {
                    assert(pre =~= bus.log().subrange(0, pre.len() as int));
                }
                assert forall|m: int| 0 <= m < app.len() && m < 13 implies spec_nuv_probe_op(
                    port,
                    app,
                    m,
                ) by {
                    assert(app[m] == bus.log()[pre.len() as int + m]);
                }
            }
            return Err(e);
        },
    };
    match bus.write_byte(port, 0x21) {
        Ok(()) => (),
        Err(e) => {
            proof {
                let app = bus.log().skip(pre.len() as int);
                assert(pre.is_prefix_of(bus.log())) by {
                    assert(pre =~= bus.log().subrange(0, pre.len() as int));
                }
                assert forall|m: int| 0 <= m < app.len() && m < 13 implies spec_nuv_probe_op(
                    port,
                    app,
                    m,
                ) by {
                    assert(app[m] == bus.log()[pre.len() as int + m]);
                }
            }
            return Err(e);
        },
    }
    let id_low = match bus.read_byte(data_port) {
        Ok(v) => v,
        Err(e) => {
            proof {
                let app = bus.log().skip(pre.len() as int);
                assert(pre.is_prefix_of(bus.log())) by {
                    assert(pre =~= bus.log().subrange(0, pre.len() as int));
                }
                assert forall|m: int| 0 <= m < app.len() && m < 13 implies spec_nuv_probe_op(
                    port,
                    app,
                    m,
                ) by {
                    assert(app[m] == bus.log()[pre.len() as int + m]);
                }
            }
            return Err(e);
        },
    };
    let chip_id = count_from_bytes(id_high, id_low);

    let ghost l6: Seq<BusOp> = bus.log();
    proof {
        let app = l6.skip(pre.len() as int);
        assert(app.len() == 6);
        assert(app[0] == l6[pre.len() as int + 0]);
        assert(app[1] == l6[pre.len() as int + 1]);
        assert(app[2] == l6[pre.len() as int + 2]);
        assert(app[3] == l6[pre.len() as int + 3]);
        assert(app[4] == l6[pre.len() as int + 4]);
        assert(app[5] == l6[pre.len() as int + 5]);
        assert(spec_nuv_probe_prefix(port, app));
        assert(spec_nuv_probe_id(app) == chip_id);
    }

    let model = nuvoton_model(chip_id);
    let name = match model {
        Some(n) => n,
        None => {
            match bus.write_byte(port, 0xAA) {
                Ok(()) => (),
                Err(e) => {
            proof {
                let app = bus.log().skip(pre.len() as int);
                assert(pre.is_prefix_of(bus.log())) by {
                    assert(pre =~= bus.log().subrange(0, pre.len() as int));
                }
                assert(app[3] == bus.log()[pre.len() as int + 3]);
                assert(app[5] == bus.log()[pre.len() as int + 5]);
                assert(op_byte(app[3]) == id_high);
                assert(op_byte(app[5]) == id_low);
                assert(spec_nuv_probe_id(app) == chip_id);
                assert forall|m: int| 0 <= m < app.len() && m < 13 implies spec_nuv_probe_op(
                    port,
                    app,
                    m,
                ) by {
                    assert(app[m] == bus.log()[pre.len() as int + m]);
                }
            }
            return Err(e);
        },
            }
            proof {
                let app = bus.log().skip(pre.len() as int);
                assert(app.len() == 7);
                assert forall|m: int| 0 <= m < 6 implies app[m] == l6.skip(pre.len() as int)[m] by {
                    assert(app[m] == bus.log()[pre.len() as int + m]);
                    assert(l6.skip(pre.len() as int)[m] == l6[pre.len() as int + m]);
                }
                assert(app[6] == bus.log()[pre.len() as int + 6]);
                assert(spec_nuv_probe_id(app) == chip_id);
                assert(pre.is_prefix_of(bus.log())) by {
                    assert(pre =~= bus.log().subrange(0, pre.len() as int));
                }
                assert forall|m: int| 0 <= m < app.len() && m < 13 implies spec_nuv_probe_op(
                    port,
                    app,
                    m,
                ) by {
                    assert(app[m] == bus.log()[pre.len() as int + m]);
                }
            }
            return Ok(None);
        },
    };

    match bus.write_byte(port, 0x07) {
        Ok(()) => (),
        Err(e) => {
            proof {
                let app = bus.log().skip(pre.len() as int);
                assert(pre.is_prefix_of(bus.log())) by {
                    assert(pre =~= bus.log().subrange(0, pre.len() as int));
                }
                assert(app[3] == bus.log()[pre.len() as int + 3]);
                assert(app[5] == bus.log()[pre.len() as int + 5]);
                assert(op_byte(app[3]) == id_high);
                assert(op_byte(app[5]) == id_low);
                assert(spec_nuv_probe_id(app) == chip_id);
                assert forall|m: int| 0 <= m < app.len() && m < 13 implies spec_nuv_probe_op(
                    port,
                    app,
                    m,
                ) by {
                    assert(app[m] == bus.log()[pre.len() as int + m]);
                }
            }
            return Err(e);
        },
    }
    match bus.write_byte(data_port, 0x0B) {
        Ok(()) => (),
        Err(e) => {
            proof {
                let app = bus.log().skip(pre.len() as int);
                assert(pre.is_prefix_of(bus.log())) by {
                    assert(pre =~= bus.log().subrange(0, pre.len() as int));
                }
                assert(app[3] == bus.log()[pre.len() as int + 3]);
                assert(app[5] == bus.log()[pre.len() as int + 5]);
                assert(op_byte(app[3]) == id_high);
                assert(op_byte(app[5]) == id_low);
                assert(spec_nuv_probe_id(app) == chip_id);
                assert forall|m: int| 0 <= m < app.len() && m < 13 implies spec_nuv_probe_op(
                    port,
                    app,
                    m,
                ) by {
                    assert(app[m] == bus.log()[pre.len() as int + m]);
                }
            }
            return Err(e);
        },
    }
    match bus.write_byte(port, 0x60) {
        Ok(()) => (),
        Err(e) => {
            proof {
                let app = bus.log().skip(pre.len() as int);
                assert(pre.is_prefix_of(bus.log())) by {
                    assert(pre =~= bus.log().subrange(0, pre.len() as int));
                }
                assert(app[3] == bus.log()[pre.len() as int + 3]);
                assert(app[5] == bus.log()[pre.len() as int + 5]);
                assert(op_byte(app[3]) == id_high);
                assert(op_byte(app[5]) == id_low);
                assert(spec_nuv_probe_id(app) == chip_id);
                assert forall|m: int| 0 <= m < app.len() && m < 13 implies spec_nuv_probe_op(
                    port,
                    app,
                    m,
                ) by {
                    assert(app[m] == bus.log()[pre.len() as int + m]);
                }
            }
            return Err(e);
        },
    }
    let base_high = match bus.read_byte(data_port) {
        Ok(v) => v,
        Err(e) => {
            proof {
                let app = bus.log().skip(pre.len() as int);
                assert(pre.is_prefix_of(bus.log())) by {
                    assert(pre =~= bus.log().subrange(0, pre.len() as int));
                }
                assert(app[3] == bus.log()[pre.len() as int + 3]);
                assert(app[5] == bus.log()[pre.len() as int + 5]);
                assert(op_byte(app[3]) == id_high);
                assert(op_byte(app[5]) == id_low);
                assert(spec_nuv_probe_id(app) == chip_id);
                assert forall|m: int| 0 <= m < app.len() && m < 13 implies spec_nuv_probe_op(
                    port,
                    app,
                    m,
                ) by {
                    assert(app[m] == bus.log()[pre.len() as int + m]);
                }
            }
            return Err(e);
        },
    };
    match bus.write_byte(port, 0x61) {
        Ok(()) => (),
        Err(e) => {
            proof {
                let app = bus.log().skip(pre.len() as int);
                assert(pre.is_prefix_of(bus.log())) by {
                    assert(pre =~= bus.log().subrange(0, pre.len() as int));
                }
                assert(app[3] == bus.log()[pre.len() as int + 3]);
                assert(app[5] == bus.log()[pre.len() as int + 5]);
                assert(op_byte(app[3]) == id_high);
                assert(op_byte(app[5]) == id_low);
                assert(spec_nuv_probe_id(app) == chip_id);
                assert forall|m: int| 0 <= m < app.len() && m < 13 implies spec_nuv_probe_op(
                    port,
                    app,
                    m,
                ) by {
                    assert(app[m] == bus.log()[pre.len() as int + m]);
                }
            }
            return Err(e);
        },
    }
    let base_low = match bus.read_byte(data_port) {
        Ok(v) => v,
        Err(e) => {
            proof {
                let app = bus.log().skip(pre.len() as int);
                assert(pre.is_prefix_of(bus.log())) by {
                    assert(pre =~= bus.log().subrange(0, pre.len() as int));
                }
                assert(app[3] == bus.log()[pre.len() as int + 3]);
                assert(app[5] == bus.log()[pre.len() as int + 5]);
                assert(op_byte(app[3]) == id_high);
                assert(op_byte(app[5]) == id_low);
                assert(spec_nuv_probe_id(app) == chip_id);
                assert forall|m: int| 0 <= m < app.len() && m < 13 implies spec_nuv_probe_op(
                    port,
                    app,
                    m,
                ) by {
                    assert(app[m] == bus.log()[pre.len() as int + m]);
                }
            }
            return Err(e);
        },
    };
    match bus.write_byte(port, 0xAA) {
        Ok(()) => (),
        Err(e) => {
            proof {
                let app = bus.log().skip(pre.len() as int);
                assert(pre.is_prefix_of(bus.log())) by {
                    assert(pre =~= bus.log().subrange(0, pre.len() as int));
                }
                assert(app[3] == bus.log()[pre.len() as int + 3]);
                assert(app[5] == bus.log()[pre.len() as int + 5]);
                assert(op_byte(app[3]) == id_high);
                assert(op_byte(app[5]) == id_low);
                assert(spec_nuv_probe_id(app) == chip_id);
                assert forall|m: int| 0 <= m < app.len() && m < 13 implies spec_nuv_probe_op(
                    port,
                    app,
                    m,
                ) by {
                    assert(app[m] == bus.log()[pre.len() as int + m]);
                }
            }
            return Err(e);
        },
    }
    let base_addr = count_from_bytes(base_high, base_low);

    let ghost l13: Seq<BusOp> = bus.log();
    proof {
        let app = l13.skip(pre.len() as int);
        assert(app.len() == 13);
        assert forall|m: int| 0 <= m < 6 implies app[m] == l6.skip(pre.len() as int)[m] by {
            assert(app[m] == l13[pre.len() as int + m]);
            assert(l6.skip(pre.len() as int)[m] == l6[pre.len() as int + m]);
        }
        assert(app[6] == l13[pre.len() as int + 6]);
        assert(app[7] == l13[pre.len() as int + 7]);
        assert(app[8] == l13[pre.len() as int + 8]);
        assert(app[9] == l13[pre.len() as int + 9]);
        assert(app[10] == l13[pre.len() as int + 10]);
        assert(app[11] == l13[pre.len() as int + 11]);
        assert(app[12] == l13[pre.len() as int + 12]);
        assert(spec_nuv_probe_prefix(port, app));
        assert(spec_nuv_base_ops(port, app));
        assert(spec_nuv_probe_id(app) == chip_id);
        assert(spec_nuv_probe_base(app) == base_addr);
        assert(pre.is_prefix_of(l13)) by {
            assert(pre =~= l13.subrange(0, pre.len() as int));
        }
        assert forall|m: int| 0 <= m < app.len() && m < 13 implies spec_nuv_probe_op(
            port,
            app,
            m,
        ) by {
            assert(app[m] == l13[pre.len() as int + m]);
        }
    }

    if base_addr == 0 || base_addr >= 0xFF00 {
        return Ok(None);
    }

    // Make sure the LPC bridge forwards the hardware-monitor range; a
    // failure here is tolerated, as on boards whose firmware already
    // decodes the range the windows are simply left alone.
    match enable_lpc_io_decode(bus, base_addr) {
        Ok(()) => (),
        Err(_) => (),
    }

    proof {
        let app = bus.log().skip(pre.len() as int);
        assert(l13.is_prefix_of(bus.log()));
        assert forall|m: int| 0 <= m < 13 implies app[m] == l13.skip(pre.len() as int)[m] by {
            assert(l13[pre.len() as int + m] == l13.subrange(0, l13.len() as int)[pre.len() as int + m]);
            assert(l13[pre.len() as int + m] == bus.log().subrange(0, l13.len() as int)[pre.len() as int + m]);
            assert(app[m] == bus.log()[pre.len() as int + m]);
            assert(l13.skip(pre.len() as int)[m] == l13[pre.len() as int + m]);
        }
        assert(spec_nuv_probe_prefix(port, app));
        assert(spec_nuv_base_ops(port, app));
        assert(spec_nuv_probe_id(app) == chip_id);
        assert(spec_nuv_probe_base(app) == base_addr);
        lemma_prefix_trans(pre, l13, bus.log());
        assert forall|m: int| 0 <= m < app.len() && m < 13 implies spec_nuv_probe_op(
            port,
            app,
            m,
        ) by {
            assert(app[m] == l13.skip(pre.len() as int)[m]);
        }
    }

    Ok(Some(NuvotonChip::new(name, chip_id, base_addr)))
}

/// The first eight operations of an ITE probe: the four-byte key sequence
/// for the port, then the two chip-ID register reads.
pub open spec fn spec_ite_probe_prefix(port: u16, app: Seq<BusOp>) -> bool {
    &&& app.len() >= 8
    &&& app[0] == (BusOp::WriteByte { port, value: 0x87u8 })
    &&& app[1] == (BusOp::WriteByte { port, value: 0x01u8 })
    &&& app[2] == (BusOp::WriteByte { port, value: 0x55u8 })
    &&& app[3] == (BusOp::WriteByte {
        port,
        value: if port == 0x2E {
            0x55u8
        } else {
            0xAAu8
        },
    })
    &&& app[4] == (BusOp::WriteByte { port, value: 0x20u8 })
    &&& app[5] == (BusOp::ReadByte { port: (port + 1) as u16, value: op_byte(app[5]) })
    &&& app[6] == (BusOp::WriteByte { port, value: 0x21u8 })
    &&& app[7] == (BusOp::ReadByte { port: (port + 1) as u16, value: op_byte(app[7]) })
}

/// The chip ID assembled from the two ID bytes an ITE probe read.
pub open spec fn spec_ite_probe_id(app: Seq<BusOp>) -> u16 {
    spec_count_from_bytes(op_byte(app[5]), op_byte(app[7]))
}

/// Operations 8..16 of a matching ITE probe: logical-device select (0x04),
/// the two base-address register reads, and the exit bytes.
pub open spec fn spec_ite_base_ops(port: u16, app: Seq<BusOp>) -> bool {
    &&& app.len() >= 16
    &&& app[8] == (BusOp::WriteByte { port, value: 0x07u8 })
    &&& app[9] == (BusOp::WriteByte { port: (port + 1) as u16, value: 0x04u8 })
    &&& app[10] == (BusOp::WriteByte { port, value: 0x60u8 })
    &&& app[11] == (BusOp::ReadByte { port: (port + 1) as u16, value: op_byte(app[11]) })
    &&& app[12] == (BusOp::WriteByte { port, value: 0x61u8 })
    &&& app[13] == (BusOp::ReadByte { port: (port + 1) as u16, value: op_byte(app[13]) })
    &&& app[14] == (BusOp::WriteByte { port, value: 0x02u8 })
    &&& app[15] == (BusOp::WriteByte { port: (port + 1) as u16, value: 0x02u8 })
}

/// The base address assembled from the two bytes an ITE probe read.
pub open spec fn spec_ite_probe_base(app: Seq<BusOp>) -> u16 {
    spec_count_from_bytes(op_byte(app[11]), op_byte(app[13]))
}

/// The operation an ITE probe performs at offset `m` of its appended
/// log: the port's key sequence and the ID reads, then — once the ID
/// matched the table — the logical-device and base-address operations and
/// the exit bytes, else the exit bytes at once.
pub open spec fn spec_ite_probe_op(port: u16, app: Seq<BusOp>, m: int) -> bool {
    if m == 0 {
        app[m] == (BusOp::WriteByte { port, value: 0x87u8 })
    } else if m == 1 {
        app[m] == (BusOp::WriteByte { port, value: 0x01u8 })
    } else if m == 2 {
        app[m] == (BusOp::WriteByte { port, value: 0x55u8 })
    } else if m == 3 {
        app[m] == (BusOp::WriteByte {
            port,
            value: if port == 0x2E {
                0x55u8
            } else {
                0xAAu8
            },
        })
    } else if m == 4 {
        app[m] == (BusOp::WriteByte { port, value: 0x20u8 })
    } else if m == 5 || m == 7 {
        app[m] == (BusOp::ReadByte { port: (port + 1) as u16, value: op_byte(app[m]) })
    } else if m == 6 {
        app[m] == (BusOp::WriteByte { port, value: 0x21u8 })
    } else if m == 8 {
        if spec_ite_model_of(spec_ite_probe_id(app)) is None {
            app[m] == (BusOp::WriteByte { port, value: 0x02u8 })
        } else {
            app[m] == (BusOp::WriteByte { port, value: 0x07u8 })
        }
    } else if m == 9 {
        if spec_ite_model_of(spec_ite_probe_id(app)) is None {
            app[m] == (BusOp::WriteByte { port: (port + 1) as u16, value: 0x02u8 })
        } else {
            app[m] == (BusOp::WriteByte { port: (port + 1) as u16, value: 0x04u8 })
        }
    } else if m == 10 {
        app[m] == (BusOp::WriteByte { port, value: 0x60u8 })
    } else if m == 11 || m == 13 {
        app[m] == (BusOp::ReadByte { port: (port + 1) as u16, value: op_byte(app[m]) })
    } else if m == 12 {
        app[m] == (BusOp::WriteByte { port, value: 0x61u8 })
    } else if m == 14 {
        app[m] == (BusOp::WriteByte { port, value: 0x02u8 })
    } else {
        app[m] == (BusOp::WriteByte { port: (port + 1) as u16, value: 0x02u8 })
    }
}

/// Whatever an ITE probe appended — complete, or cut short by a bus
/// failure — follows the probe script and nothing else: at most sixteen
/// operations, each the scripted one, and past the exit bytes of a table
/// miss nothing at all. A failing probe writes no stray bytes.
pub open spec fn spec_ite_probe_partial(port: u16, app: Seq<BusOp>) -> bool {
    &&& app.len() <= 16
    &&& forall|m: int| 0 <= m < app.len() ==> #[trigger] spec_ite_probe_op(port, app, m)
    &&& app.len() > 8 && spec_ite_model_of(spec_ite_probe_id(app)) is None ==> app.len() <= 10
}

/// A completed ITE probe that reported no chip: a table miss that exited
/// configuration mode, or a table hit whose base address read back
/// unusable.
pub open spec fn spec_ite_probe_none(port: u16, app: Seq<BusOp>) -> bool {
    &&& spec_ite_probe_prefix(port, app)
    &&& if spec_ite_model_of(spec_ite_probe_id(app)) is None {
        &&& app.len() == 10
        &&& app[8] == (BusOp::WriteByte { port, value: 0x02u8 })
        &&& app[9] == (BusOp::WriteByte { port: (port + 1) as u16, value: 0x02u8 })
    } else {
        &&& spec_ite_base_ops(port, app)
        &&& app.len() == 16
        &&& !spec_base_ok(spec_ite_probe_base(app))
    }
}

/// Probe one configuration port for an ITE chip.
///
/// The result is pinned to the log in the same way as the Nuvoton probe;
/// the miss path writes the two exit bytes, and a chip is reported exactly
/// when the ID matched the table and the base address read is usable.
#[verifier::rlimit(100)]
#[verifier::spinoff_prover]
pub fn try_ite<B: SioBus>(bus: &mut B, port: u16) -> (r: Result<Option<IteChip>, NoCrateError>)
    requires
        port == 0x2E || port == 0x4E,
    ensures
        old(bus).log().is_prefix_of(final(bus).log()),
        spec_ite_probe_partial(port, final(bus).log().skip(old(bus).log().len() as int)),
        r matches Ok(res) ==> {
            let app = final(bus).log().skip(old(bus).log().len() as int);
            &&& final(bus).log().len() >= old(bus).log().len()
            &&& spec_ite_probe_prefix(port, app)
            &&& spec_ite_model_of(spec_ite_probe_id(app)) is None ==> res is None && app.len()
                == 10 && app[8] == (BusOp::WriteByte { port, value: 0x02u8 }) && app[9] == (
            BusOp::WriteByte { port: (port + 1) as u16, value: 0x02u8 })
            &&& spec_ite_model_of(spec_ite_probe_id(app)) is Some ==> {
                &&& spec_ite_base_ops(port, app)
                &&& app.len() == 16
                &&& (res is None <==> !spec_base_ok(spec_ite_probe_base(app)))
                &&& res matches Some(chip) ==> {
                    &&& chip.chip_id == spec_ite_probe_id(app)
                    &&& chip.base_addr == spec_ite_probe_base(app)
                    &&& spec_chip_valid(Chip::Ite(chip))
                }
            }
        },
{
    let ghost pre: Seq<BusOp> = bus.log();
    let data_port = port + 1;
    let key3: u8 = if port == 0x2E {
        0x55
    } else {
        0xAA
    };

    match bus.write_byte(port, 0x87) {
        Ok(()) => (),
        Err(e) => {
            proof {
                let app = bus.log().skip(pre.len() as int);
                assert(pre.is_prefix_of(bus.log())) by {
                    assert(pre =~= bus.log().subrange(0, pre.len() as int));
                }
                assert forall|m: int| 0 <= m < app.len() implies spec_ite_probe_op(
                    port,
                    app,
                    m,
                ) by {
                    assert(app[m] == bus.log()[pre.len() as int + m]);
                }
            }
            return Err(e);
        },
    }
    match bus.write_byte(port, 0x01) {
        Ok(()) => (),
        Err(e) => {
            proof {
                let app = bus.log().skip(pre.len() as int);
                assert(pre.is_prefix_of(bus.log())) by {
                    assert(pre =~= bus.log().subrange(0, pre.len() as int));
                }
                assert forall|m: int| 0 <= m < app.len() implies spec_ite_probe_op(
                    port,
                    app,
                    m,
                ) by {
                    assert(app[m] == bus.log()[pre.len() as int + m]);
                }
            }
            return Err(e);
        },
    }
    match bus.write_byte(port, 0x55) {
        Ok(()) => (),
        Err(e) => {
            proof {
                let app = bus.log().skip(pre.len() as int);
                assert(pre.is_prefix_of(bus.log())) by {
                    assert(pre =~= bus.log().subrange(0, pre.len() as int));
                }
                assert forall|m: int| 0 <= m < app.len() implies spec_ite_probe_op(
                    port,
                    app,
                    m,
                ) by {
                    assert(app[m] == bus.log()[pre.len() as int + m]);
                }
            }
            return Err(e);
        },
    }
    match bus.write_byte(port, key3) {
        Ok(()) => (),
        Err(e) => {
            proof {
                let app = bus.log().skip(pre.len() as int);
                assert(pre.is_prefix_of(bus.log())) by {
                    assert(pre =~= bus.log().subrange(0, pre.len() as int));
                }
                assert forall|m: int| 0 <= m < app.len() implies spec_ite_probe_op(
                    port,
                    app,
                    m,
                ) by {
                    assert(app[m] == bus.log()[pre.len() as int + m]);
                }
            }
            return Err(e);
        },
    }
    match bus.write_byte(port, 0x20) {
        Ok(()) => (),
        Err(e) => {
            proof {
                let app = bus.log().skip(pre.len() as int);
                assert(pre.is_prefix_of(bus.log())) by {
                    assert(pre =~= bus.log().subrange(0, pre.len() as int));
                }
                assert forall|m: int| 0 <= m < app.len() implies spec_ite_probe_op(
                    port,
                    app,
                    m,
                ) by {
                    assert(app[m] == bus.log()[pre.len() as int + m]);
                }
            }
            return Err(e);
        },
    }
    let id_high = match bus.read_byte(data_port) {
        Ok(v) => v,
        Err(e) => {
            proof {
                let app = bus.log().skip(pre.len() as int);
                assert(pre.is_prefix_of(bus.log())) by {
                    assert(pre =~= bus.log().subrange(0, pre.len() as int));
                }
                assert forall|m: int| 0 <= m < app.len() implies spec_ite_probe_op(
                    port,
                    app,
                    m,
                ) by {
                    assert(app[m] == bus.log()[pre.len() as int + m]);
                }
            }
            return Err(e);
        },
    };
    match bus.write_byte(port, 0x21) {
        Ok(()) => (),
        Err(e) => {
            proof {
                let app = bus.log().skip(pre.len() as int);
                assert(pre.is_prefix_of(bus.log())) by {
                    assert(pre =~= bus.log().subrange(0, pre.len() as int));
                }
                assert forall|m: int| 0 <= m < app.len() implies spec_ite_probe_op(
                    port,
                    app,
                    m,
                ) by {
                    assert(app[m] == bus.log()[pre.len() as int + m]);
                }
            }
            return Err(e);
        },
    }
    let id_low = match bus.read_byte(data_port) {
        Ok(v) => v,
        Err(e) => {
            proof {
                let app = bus.log().skip(pre.len() as int);
                assert(pre.is_prefix_of(bus.log())) by {
                    assert(pre =~= bus.log().subrange(0, pre.len() as int));
                }
                assert forall|m: int| 0 <= m < app.len() implies spec_ite_probe_op(
                    port,
                    app,
                    m,
                ) by {
                    assert(app[m] == bus.log()[pre.len() as int + m]);
                }
            }
            return Err(e);
        },
    };
    let chip_id = count_from_bytes(id_high, id_low);

    let ghost l8: Seq<BusOp> = bus.log();
    proof {
        let app = l8.skip(pre.len() as int);
        assert(app.len() == 8);
        assert(app[0] == l8[pre.len() as int + 0]);
        assert(app[1] == l8[pre.len() as int + 1]);
        assert(app[2] == l8[pre.len() as int + 2]);
        assert(app[3] == l8[pre.len() as int + 3]);
        assert(app[4] == l8[pre.len() as int + 4]);
        assert(app[5] == l8[pre.len() as int + 5]);
        assert(app[6] == l8[pre.len() as int + 6]);
        assert(app[7] == l8[pre.len() as int + 7]);
        assert(spec_ite_probe_prefix(port, app));
        assert(spec_ite_probe_id(app) == chip_id);
    }

    let model = ite_model(chip_id);
    let name = match model {
        Some(n) => n,
        None => {
            match bus.write_byte(port, 0x02) {
                Ok(()) => (),
                Err(e) => {
            proof {
                let app = bus.log().skip(pre.len() as int);
                assert(pre.is_prefix_of(bus.log())) by {
                    assert(pre =~= bus.log().subrange(0, pre.len() as int));
                }
                assert(app[5] == bus.log()[pre.len() as int + 5]);
                assert(app[7] == bus.log()[pre.len() as int + 7]);
                assert(op_byte(app[5]) == id_high);
                assert(op_byte(app[7]) == id_low);
                assert(spec_ite_probe_id(app) == chip_id);
                assert forall|m: int| 0 <= m < app.len() implies spec_ite_probe_op(
                    port,
                    app,
                    m,
                ) by {
                    assert(app[m] == bus.log()[pre.len() as int + m]);
                }
            }
            return Err(e);
        },
            }
            match bus.write_byte(data_port, 0x02) {
                Ok(()) => (),
                Err(e) => {
            proof {
                let app = bus.log().skip(pre.len() as int);
                assert(pre.is_prefix_of(bus.log())) by {
                    assert(pre =~= bus.log().subrange(0, pre.len() as int));
                }
                assert(app[5] == bus.log()[pre.len() as int + 5]);
                assert(app[7] == bus.log()[pre.len() as int + 7]);
                assert(op_byte(app[5]) == id_high);
                assert(op_byte(app[7]) == id_low);
                assert(spec_ite_probe_id(app) == chip_id);
                assert forall|m: int| 0 <= m < app.len() implies spec_ite_probe_op(
                    port,
                    app,
                    m,
                ) by {
                    assert(app[m] == bus.log()[pre.len() as int + m]);
                }
            }
            return Err(e);
        },
            }
            proof {
                let app = bus.log().skip(pre.len() as int);
                assert(app.len() == 10);
                assert forall|m: int| 0 <= m < 8 implies app[m] == l8.skip(pre.len() as int)[m] by {
                    assert(app[m] == bus.log()[pre.len() as int + m]);
                    assert(l8.skip(pre.len() as int)[m] == l8[pre.len() as int + m]);
                }
                assert(app[8] == bus.log()[pre.len() as int + 8]);
                assert(app[9] == bus.log()[pre.len() as int + 9]);
                assert(spec_ite_probe_id(app) == chip_id);
                assert(pre.is_prefix_of(bus.log())) by {
                    assert(pre =~= bus.log().subrange(0, pre.len() as int));
                }
                assert forall|m: int| 0 <= m < app.len() implies spec_ite_probe_op(
                    port,
                    app,
                    m,
                ) by {
                    assert(app[m] == bus.log()[pre.len() as int + m]);
                }
            }
            return Ok(None);
        },
    };

    match bus.write_byte(port, 0x07) {
        Ok(()) => (),
        Err(e) => {
            proof {
                let app = bus.log().skip(pre.len() as int);
                assert(pre.is_prefix_of(bus.log())) by {
                    assert(pre =~= bus.log().subrange(0, pre.len() as int));
                }
                assert(app[5] == bus.log()[pre.len() as int + 5]);
                assert(app[7] == bus.log()[pre.len() as int + 7]);
                assert(op_byte(app[5]) == id_high);
                assert(op_byte(app[7]) == id_low);
                assert(spec_ite_probe_id(app) == chip_id);
                assert forall|m: int| 0 <= m < app.len() implies spec_ite_probe_op(
                    port,
                    app,
                    m,
                ) by {
                    assert(app[m] == bus.log()[pre.len() as int + m]);
                }
            }
            return Err(e);
        },
    }
    match bus.write_byte(data_port, 0x04) {
        Ok(()) => (),
        Err(e) => {
            proof {
                let app = bus.log().skip(pre.len() as int);
                assert(pre.is_prefix_of(bus.log())) by {
                    assert(pre =~= bus.log().subrange(0, pre.len() as int));
                }
                assert(app[5] == bus.log()[pre.len() as int + 5]);
                assert(app[7] == bus.log()[pre.len() as int + 7]);
                assert(op_byte(app[5]) == id_high);
                assert(op_byte(app[7]) == id_low);
                assert(spec_ite_probe_id(app) == chip_id);
                assert forall|m: int| 0 <= m < app.len() implies spec_ite_probe_op(
                    port,
                    app,
                    m,
                ) by {
                    assert(app[m] == bus.log()[pre.len() as int + m]);
                }
            }
            return Err(e);
        },
    }
    match bus.write_byte(port, 0x60) {
        Ok(()) => (),
        Err(e) => {
            proof {
                let app = bus.log().skip(pre.len() as int);
                assert(pre.is_prefix_of(bus.log())) by {
                    assert(pre =~= bus.log().subrange(0, pre.len() as int));
                }
                assert(app[5] == bus.log()[pre.len() as int + 5]);
                assert(app[7] == bus.log()[pre.len() as int + 7]);
                assert(op_byte(app[5]) == id_high);
                assert(op_byte(app[7]) == id_low);
                assert(spec_ite_probe_id(app) == chip_id);
                assert forall|m: int| 0 <= m < app.len() implies spec_ite_probe_op(
                    port,
                    app,
                    m,
                ) by {
                    assert(app[m] == bus.log()[pre.len() as int + m]);
                }
            }
            return Err(e);
        },
    }
    let base_high = match bus.read_byte(data_port) {
        Ok(v) => v,
        Err(e) => {
            proof {
                let app = bus.log().skip(pre.len() as int);
                assert(pre.is_prefix_of(bus.log())) by {
                    assert(pre =~= bus.log().subrange(0, pre.len() as int));
                }
                assert(app[5] == bus.log()[pre.len() as int + 5]);
                assert(app[7] == bus.log()[pre.len() as int + 7]);
                assert(op_byte(app[5]) == id_high);
                assert(op_byte(app[7]) == id_low);
                assert(spec_ite_probe_id(app) == chip_id);
                assert forall|m: int| 0 <= m < app.len() implies spec_ite_probe_op(
                    port,
                    app,
                    m,
                ) by {
                    assert(app[m] == bus.log()[pre.len() as int + m]);
                }
            }
            return Err(e);
        },
    };
    match bus.write_byte(port, 0x61) {
        Ok(()) => (),
        Err(e) => {
            proof {
                let app = bus.log().skip(pre.len() as int);
                assert(pre.is_prefix_of(bus.log())) by {
                    assert(pre =~= bus.log().subrange(0, pre.len() as int));
                }
                assert(app[5] == bus.log()[pre.len() as int + 5]);
                assert(app[7] == bus.log()[pre.len() as int + 7]);
                assert(op_byte(app[5]) == id_high);
                assert(op_byte(app[7]) == id_low);
                assert(spec_ite_probe_id(app) == chip_id);
                assert forall|m: int| 0 <= m < app.len() implies spec_ite_probe_op(
                    port,
                    app,
                    m,
                ) by {
                    assert(app[m] == bus.log()[pre.len() as int + m]);
                }
            }
            return Err(e);
        },
    }
    let base_low = match bus.read_byte(data_port) {
        Ok(v) => v,
        Err(e) => {
            proof {
                let app = bus.log().skip(pre.len() as int);
                assert(pre.is_prefix_of(bus.log())) by {
                    assert(pre =~= bus.log().subrange(0, pre.len() as int));
                }
                assert(app[5] == bus.log()[pre.len() as int + 5]);
                assert(app[7] == bus.log()[pre.len() as int + 7]);
                assert(op_byte(app[5]) == id_high);
                assert(op_byte(app[7]) == id_low);
                assert(spec_ite_probe_id(app) == chip_id);
                assert forall|m: int| 0 <= m < app.len() implies spec_ite_probe_op(
                    port,
                    app,
                    m,
                ) by {
                    assert(app[m] == bus.log()[pre.len() as int + m]);
                }
            }
            return Err(e);
        },
    };
    match bus.write_byte(port, 0x02) {
        Ok(()) => (),
        Err(e) => {
            proof {
                let app = bus.log().skip(pre.len() as int);
                assert(pre.is_prefix_of(bus.log())) by {
                    assert(pre =~= bus.log().subrange(0, pre.len() as int));
                }
                assert(app[5] == bus.log()[pre.len() as int + 5]);
                assert(app[7] == bus.log()[pre.len() as int + 7]);
                assert(op_byte(app[5]) == id_high);
                assert(op_byte(app[7]) == id_low);
                assert(spec_ite_probe_id(app) == chip_id);
                assert forall|m: int| 0 <= m < app.len() implies spec_ite_probe_op(
                    port,
                    app,
                    m,
                ) by {
                    assert(app[m] == bus.log()[pre.len() as int + m]);
                }
            }
            return Err(e);
        },
    }
    match bus.write_byte(data_port, 0x02) {
        Ok(()) => (),
        Err(e) => {
            proof {
                let app = bus.log().skip(pre.len() as int);
                assert(pre.is_prefix_of(bus.log())) by {
                    assert(pre =~= bus.log().subrange(0, pre.len() as int));
                }
                assert(app[5] == bus.log()[pre.len() as int + 5]);
                assert(app[7] == bus.log()[pre.len() as int + 7]);
                assert(op_byte(app[5]) == id_high);
                assert(op_byte(app[7]) == id_low);
                assert(spec_ite_probe_id(app) == chip_id);
                assert forall|m: int| 0 <= m < app.len() implies spec_ite_probe_op(
                    port,
                    app,
                    m,
                ) by {
                    assert(app[m] == bus.log()[pre.len() as int + m]);
                }
            }
            return Err(e);
        },
    }
    let base_addr = count_from_bytes(base_high, base_low);

    proof {
        let app = bus.log().skip(pre.len() as int);
        assert(app.len() == 16);
        assert forall|m: int| 0 <= m < 8 implies app[m] == l8.skip(pre.len() as int)[m] by {
            assert(app[m] == bus.log()[pre.len() as int + m]);
            assert(l8.skip(pre.len() as int)[m] == l8[pre.len() as int + m]);
        }
        assert(app[8] == bus.log()[pre.len() as int + 8]);
        assert(app[9] == bus.log()[pre.len() as int + 9]);
        assert(app[10] == bus.log()[pre.len() as int + 10]);
        assert(app[11] == bus.log()[pre.len() as int + 11]);
        assert(app[12] == bus.log()[pre.len() as int + 12]);
        assert(app[13] == bus.log()[pre.len() as int + 13]);
        assert(app[14] == bus.log()[pre.len() as int + 14]);
        assert(app[15] == bus.log()[pre.len() as int + 15]);
        assert(spec_ite_probe_prefix(port, app));
        assert(spec_ite_base_ops(port, app));
        assert(spec_ite_probe_id(app) == chip_id);
        assert(spec_ite_probe_base(app) == base_addr);
        assert(pre.is_prefix_of(bus.log())) by {
            assert(pre =~= bus.log().subrange(0, pre.len() as int));
        }
        assert forall|m: int| 0 <= m < app.len() implies spec_ite_probe_op(
            port,
            app,
            m,
        ) by {
            assert(app[m] == bus.log()[pre.len() as int + m]);
        }
    }

    if base_addr == 0 || base_addr >= 0xFF00 {
        return Ok(None);
    }

    Ok(Some(IteChip::new(name, chip_id, base_addr)))
}

/// A configuration port the detector probes.
pub open spec fn spec_probe_port(port: u16) -> bool {
    port == 0x2E || port == 0x4E
}

/// `tail` of the bus log records a complete, matching Nuvoton probe whose
/// read bytes yielded exactly this chip's ID and base address.
pub open spec fn spec_detected_nuvoton(port: u16, tail: Seq<BusOp>, c: NuvotonChip) -> bool {
    &&& spec_nuv_probe_prefix(port, tail)
    &&& spec_nuv_base_ops(port, tail)
    &&& c.chip_id == spec_nuv_probe_id(tail)
    &&& c.base_addr == spec_nuv_probe_base(tail)
}

/// `tail` of the bus log records a complete, matching ITE probe whose
/// read bytes yielded exactly this chip's ID and base address.
pub open spec fn spec_detected_ite(port: u16, tail: Seq<BusOp>, c: IteChip) -> bool {
    &&& spec_ite_probe_prefix(port, tail)
    &&& spec_ite_base_ops(port, tail)
    &&& c.chip_id == spec_ite_probe_id(tail)
    &&& c.base_addr == spec_ite_probe_base(tail)
}

/// A completed chipless Nuvoton probe appended nothing the probe script
/// does not show.
proof fn lemma_nuv_none_partial(port: u16, s: Seq<BusOp>)
    requires
        spec_nuv_probe_none(port, s),
    ensures
        spec_nuv_probe_partial(port, s),
{
    assert forall|m: int| 0 <= m < s.len() && m < 13 implies spec_nuv_probe_op(port, s, m) by {}
}

/// A completed chipless ITE probe appended nothing the probe script does
/// not show.
proof fn lemma_ite_none_partial(port: u16, s: Seq<BusOp>)
    requires
        spec_ite_probe_none(port, s),
    ensures
        spec_ite_probe_partial(port, s),
{
    assert forall|m: int| 0 <= m < s.len() implies spec_ite_probe_op(port, s, m) by {}
}

/// The operations one call appended, seen as a slice of the appended log
/// of the whole sequence of calls.
proof fn lemma_segment(pre: Seq<BusOp>, b0: Seq<BusOp>, b1: Seq<BusOp>, cur: Seq<BusOp>)
    requires
        pre.len() <= b0.len(),
        b0.len() <= b1.len(),
        b1.is_prefix_of(cur),
    ensures
        cur.skip(pre.len() as int).subrange(b0.len() - pre.len(), b1.len() - pre.len())
            =~= b1.skip(b0.len() as int),
{
    let app = cur.skip(pre.len() as int);
    let lo = b0.len() as int - pre.len() as int;
    let hi = b1.len() as int - pre.len() as int;
    assert forall|m: int| 0 <= m < hi - lo implies app.subrange(lo, hi)[m] == b1.skip(
        b0.len() as int,
    )[m] by {
        assert(app.subrange(lo, hi)[m] == app[lo + m]);
        assert(app[lo + m] == cur[b0.len() as int + m]);
        assert(b1[b0.len() as int + m] == b1.subrange(0, b1.len() as int)[b0.len() as int + m]);
        assert(b1[b0.len() as int + m] == cur.subrange(0, b1.len() as int)[b0.len() as int + m]);
        assert(b1.skip(b0.len() as int)[m] == b1[b0.len() as int + m]);
    }
}

/// Some suffix of `log` is a complete matching probe of the chip's
/// family on one of the two configuration ports, whose read bytes are
/// exactly the chip's ID and base address.
pub open spec fn spec_detected_chip(chip: Chip, log: Seq<BusOp>) -> bool {
    exists|n: int, port: u16|
        #![trigger log.skip(n), spec_probe_port(port)]
        {
            &&& 0 <= n <= log.len()
            &&& spec_probe_port(port)
            &&& match chip {
                Chip::Nuvoton(c) => spec_detected_nuvoton(port, log.skip(n), c),
                Chip::Ite(c) => spec_detected_ite(port, log.skip(n), c),
            }
        }
}

/// The chip came from the first matching probe in probe order: every
/// attempt before the winning one completed without a chip, in the fixed
/// order 0x2E-Nuvoton, 0x2E-ITE, 0x4E-Nuvoton, 0x4E-ITE, and the rest of
/// the log is the winning probe itself.
pub open spec fn spec_first_match(chip: Chip, app: Seq<BusOp>) -> bool {
    match chip {
        Chip::Nuvoton(c) => spec_detected_nuvoton(0x2E, app, c) || (exists|i1: int, i2: int|
            #![trigger app.subrange(0, i1), app.subrange(i1, i2)]
            {
                &&& 0 <= i1 <= i2 <= app.len()
                &&& spec_nuv_probe_none(0x2E, app.subrange(0, i1))
                &&& spec_ite_probe_none(0x2E, app.subrange(i1, i2))
                &&& spec_detected_nuvoton(0x4E, app.skip(i2), c)
            }),
        Chip::Ite(c) => (exists|i1: int|
            #![trigger app.subrange(0, i1)]
            {
                &&& 0 <= i1 <= app.len()
                &&& spec_nuv_probe_none(0x2E, app.subrange(0, i1))
                &&& spec_detected_ite(0x2E, app.skip(i1), c)
            }) || (exists|i1: int, i2: int, i3: int|
            #![trigger app.subrange(0, i1), app.subrange(i1, i2), app.subrange(i2, i3)]
            {
                &&& 0 <= i1 <= i2 <= i3 <= app.len()
                &&& spec_nuv_probe_none(0x2E, app.subrange(0, i1))
                &&& spec_ite_probe_none(0x2E, app.subrange(i1, i2))
                &&& spec_nuv_probe_none(0x4E, app.subrange(i2, i3))
                &&& spec_detected_ite(0x4E, app.skip(i3), c)
            }),
    }
}

/// Probe both configuration ports for a supported Super I/O chip, trying
/// the Nuvoton protocol first and ITE second on each port, first match
/// wins.
///
/// Any chip returned carries a usable base address, the model name its
/// family's table gives for the chip ID that was read, and — pinned to
/// the bus log — the very probe that produced it: some suffix of the
/// operations appended by this call is a complete matching probe of the
/// chip's family on one of the two ports, and the chip's ID and base are
/// the bytes that probe read.
///
/// On failure the appended log decomposes, in probe order, into the
/// Nuvoton and ITE attempts on port 0x2E and then on port 0x4E, each an
/// initial segment of its probe script, and a later attempt begins only
/// after the earlier one completed without a chip — so no retry and no
/// stray operation can hide in a failed detection. (When the bus itself
/// fails mid-probe, the failing attempt is simply cut short; the log
/// cannot tell a refusal to answer from a port that was never asked.)
pub fn detect_chip<B: SioBus>(bus: &mut B) -> (r: Result<Chip, NoCrateError>)
    ensures
        old(bus).log().is_prefix_of(final(bus).log()),
        r matches Ok(chip) ==> spec_chip_valid(chip) && chip.wf(),
        r matches Ok(chip) ==> spec_detected_chip(
            chip,
            final(bus).log().skip(old(bus).log().len() as int),
        ),
        r matches Ok(chip) ==> spec_first_match(
            chip,
            final(bus).log().skip(old(bus).log().len() as int),
        ),
        r is Err ==> {
            let app = final(bus).log().skip(old(bus).log().len() as int);
            exists|i1: int, i2: int, i3: int|
                #![trigger app.subrange(0, i1), app.subrange(i1, i2), app.subrange(i2, i3)]
                {
                    &&& 0 <= i1 <= i2 <= i3 <= app.len()
                    &&& spec_nuv_probe_partial(0x2E, app.subrange(0, i1))
                    &&& spec_ite_probe_partial(0x2E, app.subrange(i1, i2))
                    &&& spec_nuv_probe_partial(0x4E, app.subrange(i2, i3))
                    &&& spec_ite_probe_partial(0x4E, app.skip(i3))
                    &&& i1 < i2 ==> spec_nuv_probe_none(0x2E, app.subrange(0, i1))
                    &&& i2 < i3 ==> spec_ite_probe_none(0x2E, app.subrange(i1, i2))
                    &&& i3 < app.len() ==> spec_nuv_probe_none(0x4E, app.subrange(i2, i3))
                }
        },
{
    let ghost pre: Seq<BusOp> = bus.log();

    let r1 = try_nuvoton(bus, 0x2E);
    let ghost b1: Seq<BusOp> = bus.log();
    match r1 {
        Ok(Some(chip)) => {
            proof {
                lemma_detect_witness(pre, pre, bus.log());
                let app = bus.log().skip(pre.len() as int);
                assert(spec_probe_port(0x2E));
                assert(app.skip(0) =~= app);
                assert(spec_detected_nuvoton(0x2E, app.skip(0), chip));
                assert(spec_detected_chip(Chip::Nuvoton(chip), app));
                assert(spec_detected_nuvoton(0x2E, app, chip)) by {
                    assert(app.skip(0) =~= app);
                }
                assert(spec_first_match(Chip::Nuvoton(chip), app));
            }
            return Ok(Chip::Nuvoton(chip));
        },
        Ok(None) => (),
        Err(e) => {
            proof {
                let app = bus.log().skip(pre.len() as int);
                let i1 = app.len() as int;
                assert(app.subrange(0, i1) =~= app);
                assert(spec_nuv_probe_partial(0x2E, app.subrange(0, i1)));
                assert(spec_ite_probe_partial(0x2E, app.subrange(i1, i1)));
                assert(spec_nuv_probe_partial(0x4E, app.subrange(i1, i1)));
                assert(spec_ite_probe_partial(0x4E, app.skip(i1)));
            }
            return Err(e);
        },
    }
    proof {
        assert(spec_nuv_probe_none(0x2E, b1.skip(pre.len() as int)));
    }

    let r2 = try_ite(bus, 0x2E);
    let ghost b2: Seq<BusOp> = bus.log();
    match r2 {
        Ok(Some(chip)) => {
            proof {
                lemma_detect_witness(pre, b1, bus.log());
                let app = bus.log().skip(pre.len() as int);
                let n = b1.len() as int - pre.len() as int;
                assert(spec_probe_port(0x2E));
                assert(app.skip(n) == bus.log().skip(b1.len() as int));
                assert(spec_detected_ite(0x2E, app.skip(n), chip));
                assert(spec_detected_chip(Chip::Ite(chip), app));
                lemma_segment(pre, pre, b1, bus.log());
                assert(app.subrange(0, n) =~= b1.skip(pre.len() as int));
                assert(spec_nuv_probe_none(0x2E, app.subrange(0, n)));
                assert(spec_first_match(Chip::Ite(chip), app));
            }
            return Ok(Chip::Ite(chip));
        },
        Ok(None) => (),
        Err(e) => {
            proof {
                lemma_prefix_trans(pre, b1, bus.log());
                let app = bus.log().skip(pre.len() as int);
                let i1 = b1.len() as int - pre.len() as int;
                let i2 = app.len() as int;
                lemma_segment(pre, pre, b1, bus.log());
                assert(app.subrange(0, i1) =~= b1.skip(pre.len() as int));
                assert(spec_nuv_probe_none(0x2E, app.subrange(0, i1)));
                lemma_nuv_none_partial(0x2E, app.subrange(0, i1));
                lemma_segment(pre, b1, bus.log(), bus.log());
                assert(app.subrange(i1, i2) =~= bus.log().skip(b1.len() as int));
                assert(spec_ite_probe_partial(0x2E, app.subrange(i1, i2)));
                assert(spec_nuv_probe_partial(0x4E, app.subrange(i2, i2)));
                assert(spec_ite_probe_partial(0x4E, app.skip(i2)));
            }
            return Err(e);
        },
    }
    proof {
        lemma_prefix_trans(pre, b1, b2);
        assert(spec_ite_probe_none(0x2E, b2.skip(b1.len() as int)));
    }

    let r3 = try_nuvoton(bus, 0x4E);
    let ghost b3: Seq<BusOp> = bus.log();
    match r3 {
        Ok(Some(chip)) => {
            proof {
                lemma_detect_witness(pre, b2, bus.log());
                let app = bus.log().skip(pre.len() as int);
                let n = b2.len() as int - pre.len() as int;
                assert(spec_probe_port(0x4E));
                assert(app.skip(n) == bus.log().skip(b2.len() as int));
                assert(spec_detected_nuvoton(0x4E, app.skip(n), chip));
                assert(spec_detected_chip(Chip::Nuvoton(chip), app));
                lemma_prefix_trans(b1, b2, bus.log());
                let i1 = b1.len() as int - pre.len() as int;
                lemma_segment(pre, pre, b1, bus.log());
                assert(app.subrange(0, i1) =~= b1.skip(pre.len() as int));
                assert(spec_nuv_probe_none(0x2E, app.subrange(0, i1)));
                lemma_segment(pre, b1, b2, bus.log());
                assert(app.subrange(i1, n) =~= b2.skip(b1.len() as int));
                assert(spec_ite_probe_none(0x2E, app.subrange(i1, n)));
                assert(spec_first_match(Chip::Nuvoton(chip), app));
            }
            return Ok(Chip::Nuvoton(chip));
        },
        Ok(None) => (),
        Err(e) => {
            proof {
                lemma_prefix_trans(pre, b2, bus.log());
                let app = bus.log().skip(pre.len() as int);
                let i1 = b1.len() as int - pre.len() as int;
                let i2 = b2.len() as int - pre.len() as int;
                let i3 = app.len() as int;
                lemma_prefix_trans(b1, b2, bus.log());
                lemma_segment(pre, pre, b1, bus.log());
                assert(app.subrange(0, i1) =~= b1.skip(pre.len() as int));
                assert(spec_nuv_probe_none(0x2E, app.subrange(0, i1)));
                lemma_nuv_none_partial(0x2E, app.subrange(0, i1));
                lemma_segment(pre, b1, b2, bus.log());
                assert(app.subrange(i1, i2) =~= b2.skip(b1.len() as int));
                assert(spec_ite_probe_none(0x2E, app.subrange(i1, i2)));
                lemma_ite_none_partial(0x2E, app.subrange(i1, i2));
                lemma_segment(pre, b2, bus.log(), bus.log());
                assert(app.subrange(i2, i3) =~= bus.log().skip(b2.len() as int));
                assert(spec_nuv_probe_partial(0x4E, app.subrange(i2, i3)));
                assert(spec_ite_probe_partial(0x4E, app.skip(i3)));
            }
            return Err(e);
        },
    }
    proof {
        lemma_prefix_trans(pre, b2, b3);
        lemma_prefix_trans(b1, b2, b3);
        assert(spec_nuv_probe_none(0x4E, b3.skip(b2.len() as int)));
    }

    let r4 = try_ite(bus, 0x4E);
    let ghost b4: Seq<BusOp> = bus.log();
    match r4 {
        Ok(Some(chip)) => {
            proof {
                lemma_detect_witness(pre, b3, bus.log());
                let app = bus.log().skip(pre.len() as int);
                let n = b3.len() as int - pre.len() as int;
                assert(spec_probe_port(0x4E));
                assert(app.skip(n) == bus.log().skip(b3.len() as int));
                assert(spec_detected_ite(0x4E, app.skip(n), chip));
                assert(spec_detected_chip(Chip::Ite(chip), app));
                lemma_prefix_trans(b1, b2, b3);
                lemma_prefix_trans(b1, b3, bus.log());
                lemma_prefix_trans(b2, b3, bus.log());
                let i1 = b1.len() as int - pre.len() as int;
                let i2 = b2.len() as int - pre.len() as int;
                lemma_segment(pre, pre, b1, bus.log());
                assert(app.subrange(0, i1) =~= b1.skip(pre.len() as int));
                assert(spec_nuv_probe_none(0x2E, app.subrange(0, i1)));
                lemma_segment(pre, b1, b2, bus.log());
                assert(app.subrange(i1, i2) =~= b2.skip(b1.len() as int));
                assert(spec_ite_probe_none(0x2E, app.subrange(i1, i2)));
                lemma_segment(pre, b2, b3, bus.log());
                assert(app.subrange(i2, n) =~= b3.skip(b2.len() as int));
                assert(spec_nuv_probe_none(0x4E, app.subrange(i2, n)));
                assert(spec_first_match(Chip::Ite(chip), app));
            }
            return Ok(Chip::Ite(chip));
        },
        Ok(None) => (),
        Err(e) => {
            proof {
                detect_failure_witness(pre, b1, b2, b3, bus.log());
            }
            return Err(e);
        },
    }
    proof {
        detect_failure_witness(pre, b1, b2, b3, b4);
        assert(spec_ite_probe_none(0x4E, b4.skip(b3.len() as int)));
    }
    Err(
        NoCrateError::Sio(
            "no supported Super I/O chip detected (Nuvoton NCT67xx / ITE IT86xx)".to_owned(),
        ),
    )
}

/// Assemble the failure decomposition once all three earlier probes are
/// known to have completed without a chip and the fourth appended the
/// rest of the log.
proof fn detect_failure_witness(
    pre: Seq<BusOp>,
    b1: Seq<BusOp>,
    b2: Seq<BusOp>,
    b3: Seq<BusOp>,
    cur: Seq<BusOp>,
)
    requires
        pre.is_prefix_of(b1),
        spec_nuv_probe_none(0x2E, b1.skip(pre.len() as int)),
        b1.is_prefix_of(b2),
        spec_ite_probe_none(0x2E, b2.skip(b1.len() as int)),
        b2.is_prefix_of(b3),
        spec_nuv_probe_none(0x4E, b3.skip(b2.len() as int)),
        b3.is_prefix_of(cur),
        spec_ite_probe_partial(0x4E, cur.skip(b3.len() as int)),
    ensures
        pre.is_prefix_of(cur),
        exists|i1: int, i2: int, i3: int|
            #![trigger
                cur.skip(pre.len() as int).subrange(0, i1),
                cur.skip(pre.len() as int).subrange(i1, i2),
                cur.skip(pre.len() as int).subrange(i2, i3)
            ]
            {
                &&& 0 <= i1 <= i2 <= i3 <= cur.skip(pre.len() as int).len()
                &&& spec_nuv_probe_partial(0x2E, cur.skip(pre.len() as int).subrange(0, i1))
                &&& spec_ite_probe_partial(0x2E, cur.skip(pre.len() as int).subrange(i1, i2))
                &&& spec_nuv_probe_partial(0x4E, cur.skip(pre.len() as int).subrange(i2, i3))
                &&& spec_ite_probe_partial(0x4E, cur.skip(pre.len() as int).skip(i3))
                &&& i1 < i2 ==> spec_nuv_probe_none(0x2E, cur.skip(pre.len() as int).subrange(0, i1))
                &&& i2 < i3 ==> spec_ite_probe_none(
                    0x2E,
                    cur.skip(pre.len() as int).subrange(i1, i2),
                )
                &&& i3 < cur.skip(pre.len() as int).len() ==> spec_nuv_probe_none(
                    0x4E,
                    cur.skip(pre.len() as int).subrange(i2, i3),
                )
            },
{
    let app = cur.skip(pre.len() as int);
    let i1 = b1.len() as int - pre.len() as int;
    let i2 = b2.len() as int - pre.len() as int;
    let i3 = b3.len() as int - pre.len() as int;
    lemma_prefix_trans(b1, b2, b3);
    lemma_prefix_trans(b1, b3, cur);
    lemma_prefix_trans(b2, b3, cur);
    lemma_prefix_trans(pre, b1, cur);
    lemma_segment(pre, pre, b1, cur);
    assert(app.subrange(0, i1) =~= b1.skip(pre.len() as int));
    assert(spec_nuv_probe_none(0x2E, app.subrange(0, i1)));
    lemma_nuv_none_partial(0x2E, app.subrange(0, i1));
    lemma_segment(pre, b1, b2, cur);
    assert(app.subrange(i1, i2) =~= b2.skip(b1.len() as int));
    assert(spec_ite_probe_none(0x2E, app.subrange(i1, i2)));
    lemma_ite_none_partial(0x2E, app.subrange(i1, i2));
    lemma_segment(pre, b2, b3, cur);
    assert(app.subrange(i2, i3) =~= b3.skip(b2.len() as int));
    assert(spec_nuv_probe_none(0x4E, app.subrange(i2, i3)));
    lemma_nuv_none_partial(0x4E, app.subrange(i2, i3));
    lemma_detect_witness(pre, b3, cur);
    assert(app.skip(i3) =~= cur.skip(b3.len() as int));
}

/// The tail a probe appended, seen from the whole call's appended log:
/// skipping to the probe's start inside the appended log reaches the same
/// operations as skipping the pre-probe log directly.
proof fn lemma_detect_witness(pre: Seq<BusOp>, before: Seq<BusOp>, cur: Seq<BusOp>)
    requires
        pre.len() <= before.len(),
        before.len() <= cur.len(),
    ensures
        cur.skip(pre.len() as int).skip(before.len() - pre.len()) =~= cur.skip(
            before.len() as int,
        ),
        before.len() - pre.len() <= cur.skip(pre.len() as int).len(),
{
    let app = cur.skip(pre.len() as int);
    let n = before.len() as int - pre.len() as int;
    assert forall|m: int| 0 <= m < cur.len() - before.len() implies app.skip(n)[m] == cur.skip(
        before.len() as int,
    )[m] by {
        assert(app.skip(n)[m] == app[n + m]);
        assert(app[n + m] == cur[pre.len() as int + n + m]);
    }
}

} // verus!
