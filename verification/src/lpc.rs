//! LPC bridge wide-I/O decode configuration.
//!
//! On boards whose firmware does not forward the Super I/O's legacy range
//! to the LPC bus, the south bridge (bus 0, device 0x14, function 3) must
//! be told to decode it. The bridge offers three wide-I/O windows; if the
//! hardware-monitor base address is not already decoded by an enabled
//! window, the first free window is programmed and enabled.
//!
//! PCI configuration space is reached through the legacy address/data port
//! pair 0xCF8/0xCFC, one dword at a time.

use vstd::prelude::*;

use crate::bus::{lemma_prefix_trans, op_byte, op_dword, BusOp, SioBus};
use crate::error::NoCrateError;
use crate::nuvoton::spec_base_ok;

verus! {

/// The legacy PCI configuration address for (bus, device, function,
/// register): the enable bit and the four fields packed into one dword.
pub open spec fn spec_pci_addr(busno: u8, dev: u8, func: u8, reg: u32) -> u32 {
    0x8000_0000u32 | ((busno as u32) << 16u32) | (((dev as u32) & 0x1Fu32) << 11u32) | (((
    func as u32) & 0x07u32) << 8u32) | (reg & 0xFCu32)
}

/// The two bus operations of one PCI configuration read.
pub open spec fn spec_pci_read_ops(busno: u8, dev: u8, func: u8, reg: u32, v: u32) -> Seq<BusOp> {
    seq![
        BusOp::WriteDword { port: 0xCF8u16, value: spec_pci_addr(busno, dev, func, reg) },
        BusOp::ReadDword { port: 0xCFCu16, value: v },
    ]
}

/// The two bus operations of one PCI configuration write.
pub open spec fn spec_pci_write_ops(busno: u8, dev: u8, func: u8, reg: u32, v: u32) -> Seq<BusOp> {
    seq![
        BusOp::WriteDword { port: 0xCF8u16, value: spec_pci_addr(busno, dev, func, reg) },
        BusOp::WriteDword { port: 0xCFCu16, value: v },
    ]
}

/// What to do about the wide-I/O windows, decided from the three bridge
/// registers alone.
#[derive(Debug, Clone, Copy, PartialEq, Eq, Structural)]
pub enum WideIoDecision {
    /// An enabled window already decodes the base address.
    AlreadyDecoded,
    /// Program a free window: write `wide_value` to configuration register
    /// `wide_reg`, then `enable_value` to the enable register 0x48.
    Program { wide_reg: u32, wide_value: u32, enable_value: u32 },
    /// All three windows are enabled for other ranges.
    Exhausted,
}

/// The wide-I/O decision for `base_addr`, from the enable register (0x48),
/// the first wide-I/O register (0x64, windows 0 and 1) and the third
/// wide-I/O register (0x90, window 2). First free window wins.
pub open spec fn spec_wide_io_decision(
    io_mem_decode: u32,
    wide_io0: u32,
    wide_io2: u32,
    base_addr: u16,
) -> WideIoDecision {
    let w0_base = wide_io0 & 0xFFFFu32;
    let w0_enabled = io_mem_decode & 0x01u32 != 0;
    let w1_base = (wide_io0 >> 16u32) & 0xFFFFu32;
    let w1_enabled = io_mem_decode & 0x04u32 != 0;
    let w2_base = wide_io2 & 0xFFFFu32;
    let w2_enabled = io_mem_decode & 0x0004_0000u32 != 0;
    if (w0_enabled && w0_base == base_addr as u32) || (w1_enabled && w1_base == base_addr as u32)
        || (w2_enabled && w2_base == base_addr as u32) {
        WideIoDecision::AlreadyDecoded
    } else if !w0_enabled {
        WideIoDecision::Program {
            wide_reg: 0x64u32,
            wide_value: (wide_io0 & 0xFFFF0000u32) | (base_addr as u32),
            enable_value: io_mem_decode | 0x01u32,
        }
    } else if !w1_enabled {
        WideIoDecision::Program {
            wide_reg: 0x64u32,
            wide_value: (wide_io0 & 0x0000FFFFu32) | ((base_addr as u32) << 16u32),
            enable_value: io_mem_decode | 0x04u32,
        }
    } else if !w2_enabled {
        WideIoDecision::Program {
            wide_reg: 0x90u32,
            wide_value: (wide_io2 & 0xFFFF0000u32) | (base_addr as u32),
            enable_value: io_mem_decode | 0x0004_0000u32,
        }
    } else {
        WideIoDecision::Exhausted
    }
}

/// Decide what to do about the wide-I/O windows for `base_addr`.
pub fn wide_io_decision(io_mem_decode: u32, wide_io0: u32, wide_io2: u32, base_addr: u16) -> (r:
    WideIoDecision)
    ensures
        r == spec_wide_io_decision(io_mem_decode, wide_io0, wide_io2, base_addr),
{
    let w0_base = wide_io0 & 0xFFFF;
    let w0_enabled = io_mem_decode & 0x01 != 0;
    let w1_base = (wide_io0 >> 16) & 0xFFFF;
    let w1_enabled = io_mem_decode & 0x04 != 0;
    let w2_base = wide_io2 & 0xFFFF;
    let w2_enabled = io_mem_decode & 0x0004_0000 != 0;
    if (w0_enabled && w0_base == base_addr as u32) || (w1_enabled && w1_base == base_addr as u32)
        || (w2_enabled && w2_base == base_addr as u32) {
        WideIoDecision::AlreadyDecoded
    } else if !w0_enabled {
        WideIoDecision::Program {
            wide_reg: 0x64,
            wide_value: (wide_io0 & 0xFFFF0000) | (base_addr as u32),
            enable_value: io_mem_decode | 0x01,
        }
    } else if !w1_enabled {
        WideIoDecision::Program {
            wide_reg: 0x64,
            wide_value: (wide_io0 & 0x0000FFFF) | ((base_addr as u32) << 16),
            enable_value: io_mem_decode | 0x04,
        }
    } else if !w2_enabled {
        WideIoDecision::Program {
            wide_reg: 0x90,
            wide_value: (wide_io2 & 0xFFFF0000) | (base_addr as u32),
            enable_value: io_mem_decode | 0x0004_0000,
        }
    } else {
        WideIoDecision::Exhausted
    }
}

/// Read one dword of PCI configuration space through the 0xCF8/0xCFC
/// address/data port pair.
pub fn read_pci_config<B: SioBus>(
    bus: &mut B,
    busno: u8,
    dev: u8,
    func: u8,
    reg: u32,
) -> (r: Result<u32, NoCrateError>)
    ensures
        old(bus).log().is_prefix_of(final(bus).log()),
        r matches Ok(v) ==> final(bus).log() == old(bus).log() + spec_pci_read_ops(
            busno,
            dev,
            func,
            reg,
            v,
        ),
        r is Err ==> final(bus).log() == old(bus).log() || final(bus).log() == old(
            bus,
        ).log().push(
            BusOp::WriteDword { port: 0xCF8u16, value: spec_pci_addr(busno, dev, func, reg) },
        ),
{
    let addr: u32 = 0x8000_0000 | ((busno as u32) << 16) | (((dev as u32) & 0x1F) << 11) | (((
    func as u32) & 0x07) << 8) | (reg & 0xFC);
    assert(addr == spec_pci_addr(busno, dev, func, reg));
    match bus.write_dword(0xCF8, addr) {
        Ok(()) => (),
        Err(e) => {
            assert(old(bus).log().is_prefix_of(bus.log()));
            return Err(e);
        },
    }
    match bus.read_dword(0xCFC) {
        Ok(v) => {
            assert(bus.log() =~= old(bus).log() + spec_pci_read_ops(busno, dev, func, reg, v));
            assert(old(bus).log().is_prefix_of(bus.log()));
            Ok(v)
        },
        Err(e) => {
            assert(old(bus).log().is_prefix_of(bus.log()));
            Err(e)
        },
    }
}

/// Write one dword of PCI configuration space through the 0xCF8/0xCFC
/// address/data port pair.
pub fn write_pci_config<B: SioBus>(
    bus: &mut B,
    busno: u8,
    dev: u8,
    func: u8,
    reg: u32,
    value: u32,
) -> (r: Result<(), NoCrateError>)
    ensures
        old(bus).log().is_prefix_of(final(bus).log()),
        r is Ok ==> final(bus).log() == old(bus).log() + spec_pci_write_ops(
            busno,
            dev,
            func,
            reg,
            value,
        ),
        r is Err ==> final(bus).log() == old(bus).log() || final(bus).log() == old(
            bus,
        ).log().push(
            BusOp::WriteDword { port: 0xCF8u16, value: spec_pci_addr(busno, dev, func, reg) },
        ),
{
    let addr: u32 = 0x8000_0000 | ((busno as u32) << 16) | (((dev as u32) & 0x1F) << 11) | (((
    func as u32) & 0x07) << 8) | (reg & 0xFC);
    assert(addr == spec_pci_addr(busno, dev, func, reg));
    match bus.write_dword(0xCF8, addr) {
        Ok(()) => (),
        Err(e) => {
            assert(old(bus).log().is_prefix_of(bus.log()));
            return Err(e);
        },
    }
    match bus.write_dword(0xCFC, value) {
        Ok(()) => {
            assert(bus.log() =~= old(bus).log() + spec_pci_write_ops(busno, dev, func, reg, value));
            assert(old(bus).log().is_prefix_of(bus.log()));
            Ok(())
        },
        Err(e) => {
            assert(old(bus).log().is_prefix_of(bus.log()));
            Err(e)
        },
    }
}

/// The six PCI configuration reads of the wide-I/O inspection, as they
/// appear at the start of the appended log: vendor/device ID, the two
/// decode-enable registers, and the three wide-I/O window registers.
pub open spec fn spec_lpc_inspection(app: Seq<BusOp>) -> bool {
    &&& app.len() >= 12
    &&& app.subrange(0, 2) == spec_pci_read_ops(0u8, 0x14u8, 3u8, 0x00u32, op_dword(app[1]))
    &&& app.subrange(2, 4) == spec_pci_read_ops(0u8, 0x14u8, 3u8, 0x44u32, op_dword(app[3]))
    &&& app.subrange(4, 6) == spec_pci_read_ops(0u8, 0x14u8, 3u8, 0x48u32, op_dword(app[5]))
    &&& app.subrange(6, 8) == spec_pci_read_ops(0u8, 0x14u8, 3u8, 0x64u32, op_dword(app[7]))
    &&& app.subrange(8, 10) == spec_pci_read_ops(0u8, 0x14u8, 3u8, 0x68u32, op_dword(app[9]))
    &&& app.subrange(10, 12) == spec_pci_read_ops(0u8, 0x14u8, 3u8, 0x90u32, op_dword(app[11]))
}

/// Read the six wide-I/O inspection registers of the LPC bridge:
/// vendor/device ID, the two decode-enable registers and the three
/// window registers. On success the appended log is exactly the 12
/// inspection operations and the returned dwords are the decode-enable
/// register (0x48) and the two window registers (0x64, 0x90); on failure
/// at most the operations up to the failing read were performed.
fn inspect_wide_io<B: SioBus>(bus: &mut B) -> (r: Result<(u32, u32, u32), NoCrateError>)
    ensures
        old(bus).log().is_prefix_of(final(bus).log()),
        r matches Ok(v) ==> {
            let app = final(bus).log().skip(old(bus).log().len() as int);
            &&& app.len() == 12
            &&& spec_lpc_inspection(app)
            &&& op_dword(app[5]) == v.0
            &&& op_dword(app[7]) == v.1
            &&& op_dword(app[11]) == v.2
        },
        r is Err ==> final(bus).log().len() <= old(bus).log().len() + 11,
{
    let ghost pre: Seq<BusOp> = bus.log();
    let busno: u8 = 0;
    let dev: u8 = 0x14;
    let func: u8 = 3;

    let _vid_did = match read_pci_config(bus, busno, dev, func, 0x00) {
        Ok(v) => v,
        Err(e) => {
            return Err(e);
        },
    };
    let ghost l1: Seq<BusOp> = bus.log();
    let _io_decode_enable = match read_pci_config(bus, busno, dev, func, 0x44) {
        Ok(v) => v,
        Err(e) => {
            proof {
                lemma_prefix_trans(pre, l1, bus.log());
            }
            return Err(e);
        },
    };
    let ghost l2: Seq<BusOp> = bus.log();
    proof {
        lemma_prefix_trans(pre, l1, l2);
    }
    let io_mem_decode = match read_pci_config(bus, busno, dev, func, 0x48) {
        Ok(v) => v,
        Err(e) => {
            proof {
                lemma_prefix_trans(pre, l2, bus.log());
            }
            return Err(e);
        },
    };
    let ghost l3: Seq<BusOp> = bus.log();
    proof {
        lemma_prefix_trans(pre, l2, l3);
    }
    let wide_io0 = match read_pci_config(bus, busno, dev, func, 0x64) {
        Ok(v) => v,
        Err(e) => {
            proof {
                lemma_prefix_trans(pre, l3, bus.log());
            }
            return Err(e);
        },
    };
    let ghost l4: Seq<BusOp> = bus.log();
    proof {
        lemma_prefix_trans(pre, l3, l4);
    }
    let _wide_io1 = match read_pci_config(bus, busno, dev, func, 0x68) {
        Ok(v) => v,
        Err(e) => {
            proof {
                lemma_prefix_trans(pre, l4, bus.log());
            }
            return Err(e);
        },
    };
    let ghost l5: Seq<BusOp> = bus.log();
    proof {
        lemma_prefix_trans(pre, l4, l5);
    }
    let wide_io2 = match read_pci_config(bus, busno, dev, func, 0x90) {
        Ok(v) => v,
        Err(e) => {
            proof {
                lemma_prefix_trans(pre, l5, bus.log());
            }
            return Err(e);
        },
    };
    proof {
        lemma_prefix_trans(pre, l5, bus.log());
        lemma_lpc_inspection(pre, l1, l2, l3, l4, l5, bus.log(), _vid_did, _io_decode_enable,
            io_mem_decode, wide_io0, _wide_io1, wide_io2);
    }
    Ok((io_mem_decode, wide_io0, wide_io2))
}

/// Ensure the LPC bridge decodes `base_addr`: inspect the three wide-I/O
/// windows and, if none already decodes it, program the first free one and
/// verify with one byte read at `base_addr + 5`.
///
/// On success the appended log is the six-register inspection, followed —
/// exactly when the decision for the three dwords read was to program a
/// window — by the window write, the enable write and the verification
/// read. When every window is taken the call fails, and having failed
/// that way it has written nothing: a failure whose appended log is a
/// completed inspection whose dwords decide "exhausted" appended exactly
/// those 12 inspection operations and no more.
#[verifier::rlimit(100)]
#[verifier::spinoff_prover]
pub fn enable_lpc_io_decode<B: SioBus>(bus: &mut B, base_addr: u16) -> (r: Result<
    (),
    NoCrateError,
>)
    requires
        spec_base_ok(base_addr),
    ensures
        old(bus).log().is_prefix_of(final(bus).log()),
        r is Ok ==> {
            let app = final(bus).log().skip(old(bus).log().len() as int);
            &&& spec_lpc_inspection(app)
            &&& {
                let dec = spec_wide_io_decision(
                    op_dword(app[5]),
                    op_dword(app[7]),
                    op_dword(app[11]),
                    base_addr,
                );
                &&& !(dec is Exhausted)
                &&& dec is AlreadyDecoded ==> app.len() == 12
                &&& dec matches WideIoDecision::Program { wide_reg, wide_value, enable_value }
                    ==> {
                    &&& app.len() == 17
                    &&& app.subrange(12, 14) == spec_pci_write_ops(
                        0u8,
                        0x14u8,
                        3u8,
                        wide_reg,
                        wide_value,
                    )
                    &&& app.subrange(14, 16) == spec_pci_write_ops(
                        0u8,
                        0x14u8,
                        3u8,
                        0x48u32,
                        enable_value,
                    )
                    &&& app[16] == (BusOp::ReadByte {
                        port: (base_addr + 5) as u16,
                        value: op_byte(app[16]),
                    })
                }
            }
        },
        r is Err ==> {
            let app = final(bus).log().skip(old(bus).log().len() as int);
            spec_lpc_inspection(app) && spec_wide_io_decision(
                op_dword(app[5]),
                op_dword(app[7]),
                op_dword(app[11]),
                base_addr,
            ) is Exhausted ==> app.len() == 12
        },
{
    let ghost pre: Seq<BusOp> = bus.log();
    let (io_mem_decode, wide_io0, wide_io2) = match inspect_wide_io(bus) {
        Ok(v) => v,
        Err(e) => {
            return Err(e);
        },
    };
    let ghost l6: Seq<BusOp> = bus.log();
    let busno: u8 = 0;
    let dev: u8 = 0x14;
    let func: u8 = 3;

    let decision = wide_io_decision(io_mem_decode, wide_io0, wide_io2, base_addr);
    match decision {
        WideIoDecision::AlreadyDecoded => Ok(()),
        WideIoDecision::Program { wide_reg, wide_value, enable_value } => {
            match write_pci_config(bus, busno, dev, func, wide_reg, wide_value) {
                Ok(()) => (),
                Err(e) => {
                    proof {
                        lemma_prefix_trans(pre, l6, bus.log());
                        lemma_program_not_exhausted(pre, l6, bus.log(), base_addr);
                    }
                    return Err(e);
                },
            }
            let ghost l7: Seq<BusOp> = bus.log();
            proof {
                lemma_prefix_trans(pre, l6, l7);
            }
            match write_pci_config(bus, busno, dev, func, 0x48, enable_value) {
                Ok(()) => (),
                Err(e) => {
                    proof {
                        lemma_prefix_trans(pre, l7, bus.log());
                        lemma_program_not_exhausted(pre, l6, bus.log(), base_addr);
                    }
                    return Err(e);
                },
            }
            let ghost l8: Seq<BusOp> = bus.log();
            proof {
                lemma_prefix_trans(pre, l7, l8);
            }
            let _test = match bus.read_byte(base_addr + 5) {
                Ok(v) => v,
                Err(e) => {
                    proof {
                        lemma_prefix_trans(pre, l8, bus.log());
                        lemma_program_not_exhausted(pre, l6, bus.log(), base_addr);
                    }
                    return Err(e);
                },
            };
            proof {
                lemma_prefix_trans(pre, l8, bus.log());
                let cur = bus.log();
                let app = cur.skip(pre.len() as int);
                assert forall|m: int| 0 <= m < l6.len() - pre.len() implies app[m] == l6.skip(
                    pre.len() as int,
                )[m] by {
                    assert(app[m] == cur[pre.len() as int + m]);
                    assert(l6.skip(pre.len() as int)[m] == l6[pre.len() as int + m]);
                    assert(cur[pre.len() as int + m] == l8[pre.len() as int + m]);
                    assert(l8[pre.len() as int + m] == l7[pre.len() as int + m]);
                    assert(l7[pre.len() as int + m] == l6[pre.len() as int + m]);
                }
                assert(spec_lpc_inspection(app)) by {
                    lemma_inspection_stable(l6.skip(pre.len() as int), app);
                }
                assert(app.subrange(12, 14) =~= spec_pci_write_ops(
                    0u8,
                    0x14u8,
                    3u8,
                    wide_reg,
                    wide_value,
                )) by {
                    assert(app[12] == cur[pre.len() as int + 12]);
                    assert(app[13] == cur[pre.len() as int + 13]);
                    assert(cur[pre.len() as int + 12] == l7[pre.len() as int + 12]);
                    assert(cur[pre.len() as int + 13] == l7[pre.len() as int + 13]);
                }
                assert(app.subrange(14, 16) =~= spec_pci_write_ops(
                    0u8,
                    0x14u8,
                    3u8,
                    0x48u32,
                    enable_value,
                )) by {
                    assert(app[14] == cur[pre.len() as int + 14]);
                    assert(app[15] == cur[pre.len() as int + 15]);
                    assert(cur[pre.len() as int + 14] == l8[pre.len() as int + 14]);
                    assert(cur[pre.len() as int + 15] == l8[pre.len() as int + 15]);
                }
                assert(app[16] == cur[pre.len() as int + 16]);
            }
            Ok(())
        },
        WideIoDecision::Exhausted => {
            proof {
                let app = bus.log().skip(pre.len() as int);
                assert(app.len() == 12);
            }
            Err(
                NoCrateError::Sio(
                    "all wide I/O decode windows are in use; cannot add an ISA decode range".to_owned(),
                ),
            )
        },
    }
}

/// After a completed inspection whose dwords decided on programming a
/// window, the decision recomputed from any log that preserves the
/// inspection's first 12 operations is still that programming decision —
/// never "exhausted".
proof fn lemma_program_not_exhausted(
    pre: Seq<BusOp>,
    l6: Seq<BusOp>,
    cur: Seq<BusOp>,
    base_addr: u16,
)
    requires
        pre.len() + 12 == l6.len(),
        spec_lpc_inspection(l6.skip(pre.len() as int)),
        spec_wide_io_decision(
            op_dword(l6.skip(pre.len() as int)[5]),
            op_dword(l6.skip(pre.len() as int)[7]),
            op_dword(l6.skip(pre.len() as int)[11]),
            base_addr,
        ) is Program,
        l6.is_prefix_of(cur),
    ensures
        spec_lpc_inspection(cur.skip(pre.len() as int)),
        spec_wide_io_decision(
            op_dword(cur.skip(pre.len() as int)[5]),
            op_dword(cur.skip(pre.len() as int)[7]),
            op_dword(cur.skip(pre.len() as int)[11]),
            base_addr,
        ) is Program,
{
    let app6 = l6.skip(pre.len() as int);
    let app = cur.skip(pre.len() as int);
    assert forall|m: int| 0 <= m < 12 implies app[m] == app6[m] by {
        assert(app[m] == cur[pre.len() as int + m]);
        assert(app6[m] == l6[pre.len() as int + m]);
        assert(l6[pre.len() as int + m] == l6.subrange(0, l6.len() as int)[pre.len() as int + m]);
        assert(l6[pre.len() as int + m] == cur.subrange(0, l6.len() as int)[pre.len() as int + m]);
    }
    lemma_inspection_stable(app6, app);
}

/// The six sequential PCI reads assemble into the inspection shape.
proof fn lemma_lpc_inspection(
    pre: Seq<BusOp>,
    l1: Seq<BusOp>,
    l2: Seq<BusOp>,
    l3: Seq<BusOp>,
    l4: Seq<BusOp>,
    l5: Seq<BusOp>,
    l6: Seq<BusOp>,
    v0: u32,
    v1: u32,
    v2: u32,
    v3: u32,
    v4: u32,
    v5: u32,
)
    requires
        l1 == pre + spec_pci_read_ops(0u8, 0x14u8, 3u8, 0x00u32, v0),
        l2 == l1 + spec_pci_read_ops(0u8, 0x14u8, 3u8, 0x44u32, v1),
        l3 == l2 + spec_pci_read_ops(0u8, 0x14u8, 3u8, 0x48u32, v2),
        l4 == l3 + spec_pci_read_ops(0u8, 0x14u8, 3u8, 0x64u32, v3),
        l5 == l4 + spec_pci_read_ops(0u8, 0x14u8, 3u8, 0x68u32, v4),
        l6 == l5 + spec_pci_read_ops(0u8, 0x14u8, 3u8, 0x90u32, v5),
    ensures
        l6.len() == pre.len() + 12,
        spec_lpc_inspection(l6.skip(pre.len() as int)),
        op_dword(l6.skip(pre.len() as int)[5]) == v2,
        op_dword(l6.skip(pre.len() as int)[7]) == v3,
        op_dword(l6.skip(pre.len() as int)[11]) == v5,
{
    let app = l6.skip(pre.len() as int);
    assert forall|m: int| 0 <= m < 12 implies app[m] == l6[pre.len() as int + m] by {}
    assert(app[0] == spec_pci_read_ops(0u8, 0x14u8, 3u8, 0x00u32, v0)[0]);
    assert(app[1] == spec_pci_read_ops(0u8, 0x14u8, 3u8, 0x00u32, v0)[1]);
    assert(app[2] == spec_pci_read_ops(0u8, 0x14u8, 3u8, 0x44u32, v1)[0]);
    assert(app[3] == spec_pci_read_ops(0u8, 0x14u8, 3u8, 0x44u32, v1)[1]);
    assert(app[4] == spec_pci_read_ops(0u8, 0x14u8, 3u8, 0x48u32, v2)[0]);
    assert(app[5] == spec_pci_read_ops(0u8, 0x14u8, 3u8, 0x48u32, v2)[1]);
    assert(app[6] == spec_pci_read_ops(0u8, 0x14u8, 3u8, 0x64u32, v3)[0]);
    assert(app[7] == spec_pci_read_ops(0u8, 0x14u8, 3u8, 0x64u32, v3)[1]);
    assert(app[8] == spec_pci_read_ops(0u8, 0x14u8, 3u8, 0x68u32, v4)[0]);
    assert(app[9] == spec_pci_read_ops(0u8, 0x14u8, 3u8, 0x68u32, v4)[1]);
    assert(app[10] == spec_pci_read_ops(0u8, 0x14u8, 3u8, 0x90u32, v5)[0]);
    assert(app[11] == spec_pci_read_ops(0u8, 0x14u8, 3u8, 0x90u32, v5)[1]);
    assert(app.subrange(0, 2) =~= spec_pci_read_ops(0u8, 0x14u8, 3u8, 0x00u32, v0));
    assert(app.subrange(2, 4) =~= spec_pci_read_ops(0u8, 0x14u8, 3u8, 0x44u32, v1));
    assert(app.subrange(4, 6) =~= spec_pci_read_ops(0u8, 0x14u8, 3u8, 0x48u32, v2));
    assert(app.subrange(6, 8) =~= spec_pci_read_ops(0u8, 0x14u8, 3u8, 0x64u32, v3));
    assert(app.subrange(8, 10) =~= spec_pci_read_ops(0u8, 0x14u8, 3u8, 0x68u32, v4));
    assert(app.subrange(10, 12) =~= spec_pci_read_ops(0u8, 0x14u8, 3u8, 0x90u32, v5));
}

/// The inspection shape only looks at the first 12 elements, so it
/// survives appending.
proof fn lemma_inspection_stable(a: Seq<BusOp>, b: Seq<BusOp>)
    requires
        spec_lpc_inspection(a),
        b.len() >= a.len(),
        forall|m: int| 0 <= m < a.len() ==> b[m] == a[m],
    ensures
        spec_lpc_inspection(b),
{
    assert(b.subrange(0, 2) =~= a.subrange(0, 2));
    assert(b.subrange(2, 4) =~= a.subrange(2, 4));
    assert(b.subrange(4, 6) =~= a.subrange(4, 6));
    assert(b.subrange(6, 8) =~= a.subrange(6, 8));
    assert(b.subrange(8, 10) =~= a.subrange(8, 10));
    assert(b.subrange(10, 12) =~= a.subrange(10, 12));
}

} // verus!
