use nocrate::bus::{BusOp, ScriptedBus, SioBus};
use nocrate::lpc::{
    enable_lpc_io_decode, read_pci_config, wide_io_decision, write_pci_config, WideIoDecision,
};

#[test]
fn decision_sees_an_already_decoded_window() {
    // window 0 enabled (bit 0) and holding the base
    let d = wide_io_decision(0x0000_0001, 0x0000_0290, 0, 0x0290);
    assert_eq!(d, WideIoDecision::AlreadyDecoded);
    // window 1 enabled (bit 2), base in the high half of the register
    let d = wide_io_decision(0x0000_0004, 0x0290_0000, 0, 0x0290);
    assert_eq!(d, WideIoDecision::AlreadyDecoded);
    // window 2 enabled (bit 18), base in its own register
    let d = wide_io_decision(0x0004_0000, 0, 0x0000_0290, 0x0290);
    assert_eq!(d, WideIoDecision::AlreadyDecoded);
}

#[test]
fn decision_programs_the_first_free_window() {
    // nothing enabled: window 0 wins
    let d = wide_io_decision(0, 0xABCD_0000, 0, 0x0290);
    assert_eq!(
        d,
        WideIoDecision::Program {
            wide_reg: 0x64,
            wide_value: 0xABCD_0290,
            enable_value: 0x0000_0001,
        }
    );
    // window 0 taken by another range: window 1 wins, base shifts high
    let d = wide_io_decision(0x0000_0001, 0x0000_0100, 0, 0x0290);
    assert_eq!(
        d,
        WideIoDecision::Program {
            wide_reg: 0x64,
            wide_value: 0x0290_0100,
            enable_value: 0x0000_0005,
        }
    );
    // windows 0 and 1 taken: window 2 wins, in its own register
    let d = wide_io_decision(0x0000_0005, 0x0100_0100, 0xEF00_0000, 0x0290);
    assert_eq!(
        d,
        WideIoDecision::Program {
            wide_reg: 0x90,
            wide_value: 0xEF00_0290,
            enable_value: 0x0004_0005,
        }
    );
}

#[test]
fn decision_exhausts_when_every_window_is_taken() {
    let d = wide_io_decision(0x0004_0005, 0x0100_0100, 0x0100, 0x0290);
    assert_eq!(d, WideIoDecision::Exhausted);
}

#[test]
fn pci_config_reads_go_through_the_legacy_port_pair() {
    let mut bus = ScriptedBus::new(vec![], vec![0x1022_790E]);
    let v = read_pci_config(&mut bus, 0, 0x14, 3, 0x00).unwrap();
    assert_eq!(v, 0x1022_790E);
    let ops = bus.ops();
    assert_eq!(ops.len(), 2);
    // CONFIG_ADDRESS = enable | dev 0x14 << 11 | func 3 << 8
    assert_eq!(ops[0], BusOp::WriteDword { port: 0xCF8, value: 0x8000_A300 });
    assert_eq!(ops[1], BusOp::ReadDword { port: 0xCFC, value: 0x1022_790E });
}

#[test]
fn pci_config_writes_go_through_the_legacy_port_pair() {
    let mut bus = ScriptedBus::new(vec![], vec![]);
    write_pci_config(&mut bus, 0, 0x14, 3, 0x48, 0xAB).unwrap();
    let ops = bus.ops();
    assert_eq!(ops[0], BusOp::WriteDword { port: 0xCF8, value: 0x8000_A348 });
    assert_eq!(ops[1], BusOp::WriteDword { port: 0xCFC, value: 0xAB });
}

#[test]
fn lpc_enable_skips_programming_when_already_decoded() {
    // six inspection reads; window 0 already enabled for the base
    let dwords = vec![0x1022_790E, 0, 0x0000_0001, 0x0000_0290, 0, 0];
    let mut bus = ScriptedBus::new(vec![], dwords);
    enable_lpc_io_decode(&mut bus, 0x0290).unwrap();
    // 6 reads of 2 operations each, and nothing else
    assert_eq!(bus.ops().len(), 12);
}

#[test]
fn lpc_enable_programs_and_verifies() {
    // all windows free: window 0 is programmed and the range verified
    let dwords = vec![0x1022_790E, 0, 0, 0, 0, 0];
    let mut bus = ScriptedBus::new(vec![0x5C], dwords);
    enable_lpc_io_decode(&mut bus, 0x0290).unwrap();
    let ops = bus.ops();
    assert_eq!(ops.len(), 17);
    assert_eq!(ops[13], BusOp::WriteDword { port: 0xCFC, value: 0x0000_0290 });
    assert_eq!(ops[15], BusOp::WriteDword { port: 0xCFC, value: 0x0000_0001 });
    assert_eq!(ops[16], BusOp::ReadByte { port: 0x0290 + 5, value: 0x5C });
}

#[test]
fn lpc_enable_fails_when_windows_are_exhausted() {
    let dwords = vec![0x1022_790E, 0, 0x0004_0005, 0x0100_0100, 0, 0x0100];
    let mut bus = ScriptedBus::new(vec![], dwords);
    assert!(enable_lpc_io_decode(&mut bus, 0x0290).is_err());
    // nothing was written: the log holds exactly the 12 inspection
    // operations and no data write beyond them
    assert_eq!(bus.ops().len(), 12);
    for op in &bus.ops()[..] {
        match op {
            BusOp::WriteDword { port, .. } => assert_eq!(*port, 0xCF8),
            BusOp::ReadDword { port, .. } => assert_eq!(*port, 0xCFC),
            _ => panic!("unexpected byte operation during inspection"),
        }
    }
}
