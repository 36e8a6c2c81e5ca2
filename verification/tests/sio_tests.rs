use nocrate::bus::{BusOp, ScriptedBus, SioBus};
use nocrate::detect::{detect_chip, Chip};
use nocrate::ite::IteChip;
use nocrate::monitor::SioMonitor;
use nocrate::nuvoton::NuvotonChip;

/// Nuvoton ID 0xD420 at base 0x0290: detection returns NCT6796D there.
#[test]
fn detect_nuvoton_nct6796d_at_0x0290() {
    // The probe reads id (0xD4, 0x20) and base (0x02, 0x90); the LPC
    // decode step then reads six PCI dwords, programs window 0 (all
    // windows free) and verifies with one byte read.
    let bytes = vec![0xD4, 0x20, 0x02, 0x90, 0x00];
    let dwords = vec![0, 0, 0, 0, 0, 0];
    let mut bus = ScriptedBus::new(bytes, dwords);
    let chip = detect_chip(&mut bus).expect("detection must succeed");
    match chip {
        Chip::Nuvoton(c) => {
            assert_eq!(c.name, "NCT6796D");
            assert_eq!(c.chip_id, 0xD420);
            assert_eq!(c.base_addr, 0x0290);
        }
        Chip::Ite(_) => panic!("expected a Nuvoton chip"),
    }
}

/// A failing LPC decode step is tolerated: detection still succeeds.
#[test]
fn detect_nuvoton_tolerates_lpc_failure() {
    let bytes = vec![0xD4, 0x2A, 0x02, 0x90];
    let dwords = vec![]; // every PCI read fails
    let mut bus = ScriptedBus::new(bytes, dwords);
    let chip = detect_chip(&mut bus).expect("detection must succeed");
    match chip {
        Chip::Nuvoton(c) => {
            // the low nibble is the silicon revision and is ignored
            assert_eq!(c.name, "NCT6796D");
            assert_eq!(c.chip_id, 0xD42A);
        }
        Chip::Ite(_) => panic!("expected a Nuvoton chip"),
    }
}

/// An unknown Nuvoton ID falls through to the ITE probe on the same port.
#[test]
fn detect_ite_after_nuvoton_miss() {
    // Nuvoton probe: id 0x1234 -> miss, exits. ITE probe: id 0x8688,
    // base 0x0A30 -> IT8688E.
    let bytes = vec![0x12, 0x34, 0x86, 0x88, 0x0A, 0x30];
    let mut bus = ScriptedBus::new(bytes, vec![]);
    let chip = detect_chip(&mut bus).expect("detection must succeed");
    match chip {
        Chip::Ite(c) => {
            assert_eq!(c.name, "IT8688E");
            assert_eq!(c.chip_id, 0x8688);
            assert_eq!(c.base_addr, 0x0A30);
        }
        Chip::Nuvoton(_) => panic!("expected an ITE chip"),
    }
}

/// No chip on either port is a terminal failure.
#[test]
fn detect_nothing_fails() {
    // Four probes, each reading two unknown ID bytes.
    let bytes = vec![0, 0, 0, 0, 0, 0, 0, 0];
    let mut bus = ScriptedBus::new(bytes, vec![]);
    assert!(detect_chip(&mut bus).is_err());
}

/// A zero base address is rejected even for a known chip ID.
#[test]
fn detect_rejects_zero_base() {
    // Nuvoton hit (0xD420) but base reads as 0x0000 -> probe reports
    // nothing; all later probes miss.
    let bytes = vec![0xD4, 0x20, 0x00, 0x00, 0, 0, 0, 0, 0, 0];
    let mut bus = ScriptedBus::new(bytes, vec![]);
    assert!(detect_chip(&mut bus).is_err());
}

fn nuvoton_fan_bytes() -> Vec<u8> {
    // fan 0: count 0x053E (1342 -> 1005 RPM); fan 1: sentinel 0xFFFF;
    // fan 2: sentinel 0x0000; fans 3..6: count 0x0800 (2048 -> 659 RPM)
    let mut b = vec![0x05, 0x3E, 0xFF, 0xFF, 0x00, 0x00];
    for _ in 3..7 {
        b.push(0x08);
        b.push(0x00);
    }
    b
}

#[test]
fn nuvoton_fan_scan_decodes_counts() {
    let chip = NuvotonChip::new("NCT6796D".to_string(), 0xD420, 0x0290);
    let mut bus = ScriptedBus::new(nuvoton_fan_bytes(), vec![]);
    let fans = chip.read_fans(&mut bus).expect("scan must succeed");
    assert_eq!(fans.len(), 7);
    assert_eq!(fans[0].rpm, 1005);
    assert_eq!(fans[0].name, "CPU Fan");
    assert_eq!(fans[1].rpm, 0);
    assert_eq!(fans[2].rpm, 0);
    assert_eq!(fans[3].rpm, 1_350_000 / 0x0800);
    for (i, f) in fans.iter().enumerate() {
        assert_eq!(f.channel as usize, i);
    }
    // 7 fans, 2 banked register reads each, 3 port operations per read
    assert_eq!(bus.ops().len(), 42);
}

#[test]
fn nuvoton_temp_scan_keeps_plausible_channels_only() {
    let chip = NuvotonChip::new("NCT6796D".to_string(), 0xD420, 0x0290);
    // ch0: 42 C + half bit; ch1: -100 C (garbage, dropped); ch2: 25 C;
    // ch3: 127 C (above 125, dropped); ch4: 0 C; ch5: -40 C (kept)
    let bytes = vec![
        42, 0x80, // ch0 -> 85 half-degrees
        0x9C, 0x00, // ch1 -> -200, dropped
        25, 0x00, // ch2 -> 50
        127, 0x00, // ch3 -> 254, dropped
        0, 0x00, // ch4 -> 0
        0xD8, 0x00, // ch5 -> -80, kept (exactly -40 C)
    ];
    let mut bus = ScriptedBus::new(bytes, vec![]);
    let temps = chip.read_temps(&mut bus).expect("scan must succeed");
    let channels: Vec<u8> = temps.iter().map(|t| t.channel).collect();
    assert_eq!(channels, vec![0, 2, 4, 5]);
    assert_eq!(temps[0].temp_half_c, 85);
    assert_eq!(temps[0].name, "Mainboard");
    assert_eq!(temps[1].temp_half_c, 50);
    assert_eq!(temps[3].temp_half_c, -80);
    assert_eq!(bus.ops().len(), 36);
}

#[test]
fn ite_fan_scan_sixteen_bit_mode() {
    let chip = IteChip::new("IT8688E".to_string(), 0x8688, 0x0A30);
    // config byte 0x40 -> 16-bit mode; each fan reads low then high
    let bytes = vec![
        0x40, // configuration register
        0x3E, 0x05, // fan 0: low 0x3E, high 0x05 -> 0x053E -> 1005
        0xFF, 0xFF, // fan 1: sentinel
        0x00, 0x08, // fan 2: 0x0800
        0x00, 0x00, // fan 3: sentinel 0
        0x01, 0x00, // fan 4: count 1
    ];
    let mut bus = ScriptedBus::new(bytes, vec![]);
    let fans = chip.read_fans(&mut bus).expect("scan must succeed");
    assert_eq!(fans.len(), 5);
    assert_eq!(fans[0].rpm, 1005);
    assert_eq!(fans[1].rpm, 0);
    assert_eq!(fans[2].rpm, 1_350_000 / 0x0800);
    assert_eq!(fans[3].rpm, 0);
    assert_eq!(fans[4].rpm, 1_350_000);
}

#[test]
fn ite_fan_scan_eight_bit_mode_uses_low_byte() {
    let chip = IteChip::new("IT8688E".to_string(), 0x8688, 0x0A30);
    let bytes = vec![
        0x00, // configuration register: 8-bit mode
        0xD2, 0x40, 0x40, 0x40, 0x40, // five low bytes only
    ];
    let mut bus = ScriptedBus::new(bytes, vec![]);
    let fans = chip.read_fans(&mut bus).expect("scan must succeed");
    assert_eq!(fans.len(), 5);
    assert_eq!(fans[0].rpm, 1_350_000 / 0xD2);
    // 1 config read + 5 low-byte reads, 2 operations each
    assert_eq!(bus.ops().len(), 12);
}

#[test]
fn ite_six_fan_models() {
    let six = IteChip::new("IT8689E".to_string(), 0x8689, 0x0A30);
    assert!(six.has_6_fans());
    let five = IteChip::new("IT8688E".to_string(), 0x8688, 0x0A30);
    assert!(!five.has_6_fans());

    let bytes = vec![0x00, 1, 2, 3, 4, 5, 6];
    let mut bus = ScriptedBus::new(bytes, vec![]);
    let fans = six.read_fans(&mut bus).expect("scan must succeed");
    assert_eq!(fans.len(), 6);
    assert_eq!(fans[5].channel, 5);
}

#[test]
fn ite_temp_scan() {
    let chip = IteChip::new("IT8688E".to_string(), 0x8688, 0x0A30);
    let bytes = vec![55, 0x9C, 30]; // ch1 is -100 C and dropped
    let mut bus = ScriptedBus::new(bytes, vec![]);
    let temps = chip.read_temps(&mut bus).expect("scan must succeed");
    let channels: Vec<u8> = temps.iter().map(|t| t.channel).collect();
    assert_eq!(channels, vec![0, 2]);
    assert_eq!(temps[0].temp_half_c, 110);
    assert_eq!(temps[0].name, "CPU");
}

/// One read_all is one atomic block: the whole fan scan, then the whole
/// temperature scan, with no foreign operation in between. The recorded
/// log shows the fan window selections strictly before every temperature
/// window selection.
#[test]
fn read_all_never_interleaves_fan_and_temp_windows() {
    // Detection bytes, then one full snapshot: 14 fan bytes + 12 temps.
    let mut bytes = vec![0xD4, 0x20, 0x02, 0x90];
    bytes.extend(nuvoton_fan_bytes());
    bytes.extend(vec![42, 0x80, 25, 0x00, 25, 0x00, 25, 0x00, 25, 0x00, 25, 0x00]);
    let mut bus = ScriptedBus::new(bytes, vec![]);
    // Leave the dword script empty: the LPC step fails and is tolerated.
    let mut monitor = SioMonitor::init(bus).expect("init must succeed");
    let detect_ops = {
        // everything recorded so far belongs to detection
        monitor.bus.ops().len()
    };
    let snap = monitor.read_all().expect("read_all must succeed");
    assert_eq!(snap.chip_name, "NCT6796D");
    assert_eq!(snap.fans.len(), 7);
    assert_eq!(snap.fans[0].rpm, 1005);

    let ops = monitor.bus.ops();
    assert_eq!(ops.len() - detect_ops, 42 + 36);
    let block = &ops[detect_ops..];
    // The first 42 operations are the fan scan: every bank select in it
    // picks bank 4 and every register index is a fan tachometer register.
    for i in 0..7 {
        match block[6 * i] {
            BusOp::WriteByte { port, value } => {
                assert_eq!(port, 0x0290 + 0x4E);
                assert_eq!(value, 4);
            }
            _ => panic!("expected a bank select"),
        }
        match block[6 * i + 1] {
            BusOp::WriteByte { port, value } => {
                assert_eq!(port, 0x0290 + 0x05);
                assert_eq!(value, 0xC0 + 2 * i as u8);
            }
            _ => panic!("expected an index write"),
        }
    }
    // The remaining 36 are the temperature scan: no fan register index
    // appears anywhere in it.
    for op in &block[42..] {
        if let BusOp::WriteByte { port, value } = op {
            if *port == 0x0290 + 0x05 {
                assert!(*value < 0xC0, "temperature scan touched a fan register");
            }
        }
    }
}

#[test]
fn monitor_status_reports_chip() {
    let bytes = vec![0xD4, 0x20, 0x02, 0x90];
    let bus = ScriptedBus::new(bytes, vec![]);
    let monitor = SioMonitor::init(bus).expect("init must succeed");
    let status = monitor.status();
    assert!(status.available);
    assert_eq!(status.chip_name.as_deref(), Some("NCT6796D"));
    assert!(status.error.is_none());
}

#[test]
fn unavailable_status_reports_error() {
    let s = nocrate::chips::unavailable_status("driver not loaded");
    assert!(!s.available);
    assert!(s.chip_name.is_none());
    assert_eq!(s.error.as_deref(), Some("driver not loaded"));
}

/// A probe cut short by a failing bus has written nothing beyond the
/// probe script: here the second ID read fails, and the log holds only
/// the entry sequence and the first ID read.
#[test]
fn probe_cut_short_writes_no_stray_bytes() {
    let mut bus = ScriptedBus::new(vec![0xD4], vec![]);
    assert!(nocrate::detect::try_nuvoton(&mut bus, 0x2E).is_err());
    let ops = bus.ops();
    assert_eq!(ops.len(), 5);
    assert_eq!(ops[0], BusOp::WriteByte { port: 0x2E, value: 0x87 });
    assert_eq!(ops[1], BusOp::WriteByte { port: 0x2E, value: 0x87 });
    assert_eq!(ops[2], BusOp::WriteByte { port: 0x2E, value: 0x20 });
    assert_eq!(ops[3], BusOp::ReadByte { port: 0x2F, value: 0xD4 });
    assert_eq!(ops[4], BusOp::WriteByte { port: 0x2E, value: 0x21 });
}

#[test]
fn scripted_bus_fails_when_exhausted() {
    let mut bus = ScriptedBus::new(vec![], vec![]);
    assert!(bus.read_byte(0x2E).is_err());
    assert!(bus.write_byte(0x2E, 1).is_ok());
    let chip = NuvotonChip::new("NCT6796D".to_string(), 0xD420, 0x0290);
    assert!(chip.read_fans(&mut bus).is_err());
}

#[test]
fn nuvoton_probe_miss_exits_configuration_mode() {
    let mut bus = ScriptedBus::new(vec![0x12, 0x34], vec![]);
    let res = nocrate::detect::try_nuvoton(&mut bus, 0x2E).expect("probe must not fail");
    assert!(res.is_none());
    let ops = bus.ops();
    // entry (2 writes), two ID reads (2 ops each), then the exit byte
    assert_eq!(ops.len(), 7);
    assert_eq!(ops[0], BusOp::WriteByte { port: 0x2E, value: 0x87 });
    assert_eq!(ops[1], BusOp::WriteByte { port: 0x2E, value: 0x87 });
    assert_eq!(ops[2], BusOp::WriteByte { port: 0x2E, value: 0x20 });
    assert_eq!(ops[3], BusOp::ReadByte { port: 0x2F, value: 0x12 });
    assert_eq!(ops[6], BusOp::WriteByte { port: 0x2E, value: 0xAA });
}

#[test]
fn ite_probe_miss_writes_both_exit_bytes() {
    let mut bus = ScriptedBus::new(vec![0x12, 0x34], vec![]);
    let res = nocrate::detect::try_ite(&mut bus, 0x4E).expect("probe must not fail");
    assert!(res.is_none());
    let ops = bus.ops();
    // the 0x4E key sequence ends in 0xAA, not 0x55
    assert_eq!(ops[3], BusOp::WriteByte { port: 0x4E, value: 0xAA });
    assert_eq!(ops.len(), 10);
    assert_eq!(ops[8], BusOp::WriteByte { port: 0x4E, value: 0x02 });
    assert_eq!(ops[9], BusOp::WriteByte { port: 0x4F, value: 0x02 });
}

#[test]
fn ite_probe_key_sequence_differs_by_port() {
    let mut bus = ScriptedBus::new(vec![0x12, 0x34], vec![]);
    let _ = nocrate::detect::try_ite(&mut bus, 0x2E).expect("probe must not fail");
    assert_eq!(bus.ops()[3], BusOp::WriteByte { port: 0x2E, value: 0x55 });
}

#[test]
fn ite_probe_rejects_sentinel_base() {
    // known ID but the base reads back as 0xFFFF
    let mut bus = ScriptedBus::new(vec![0x86, 0x88, 0xFF, 0xFF], vec![]);
    let res = nocrate::detect::try_ite(&mut bus, 0x2E).expect("probe must not fail");
    assert!(res.is_none());
    assert_eq!(bus.ops().len(), 16);
}
