use nocrate::aura::{
    aura_mb_pids, build_commit, build_direct, build_firmware_query, build_report, build_set_effect,
    direct_packets, AuraEffect, AuraSpeed, RgbColor, AURA_VID, MAX_LEDS_PER_PACKET, REPORT_SIZE,
};

#[test]
fn report_layout() {
    let report = build_report(0x35, &vec![1, 2, 3]);
    assert_eq!(report.len(), REPORT_SIZE);
    assert_eq!(report[0], 0x00);
    assert_eq!(report[1], 0x35);
    assert_eq!(&report[2..5], &[1, 2, 3]);
    assert!(report[5..].iter().all(|&b| b == 0));
}

#[test]
fn report_truncates_oversized_payload() {
    let payload: Vec<u8> = (0..100).collect();
    let report = build_report(0x36, &payload);
    assert_eq!(report.len(), REPORT_SIZE);
    assert_eq!(report[64], 62); // the 63rd payload byte is the last kept
}

#[test]
fn set_effect_packet_bytes() {
    let report = build_set_effect(
        AuraEffect::Breathing,
        RgbColor::new(0x11, 0x22, 0x33),
        AuraSpeed::Fast,
    );
    assert_eq!(report.len(), 65);
    assert_eq!(report[1], 0x35);
    assert_eq!(report[2], 0x00); // channel 0
    assert_eq!(report[3], 0x02); // breathing
    assert_eq!(&report[4..7], &[0x11, 0x22, 0x33]);
    assert_eq!(report[7], 0x01); // fast
    assert!(report[8..].iter().all(|&b| b == 0));
}

#[test]
fn commit_packet_bytes() {
    let report = build_commit();
    assert_eq!(report[1], 0x35);
    assert_eq!(report[2], 0xFF);
    assert!(report[3..].iter().all(|&b| b == 0));
}

#[test]
fn firmware_query_packet_bytes() {
    let report = build_firmware_query();
    assert_eq!(report[1], 0xB0);
    assert!(report[2..].iter().all(|&b| b == 0));
}

#[test]
fn direct_packet_bytes() {
    let colors = vec![RgbColor::new(1, 2, 3), RgbColor::new(4, 5, 6)];
    let report = build_direct(7, &colors);
    assert_eq!(report[1], 0x36);
    assert_eq!(report[2], 7); // start LED
    assert_eq!(report[3], 2); // count
    assert_eq!(&report[4..10], &[1, 2, 3, 4, 5, 6]);
    assert!(report[10..].iter().all(|&b| b == 0));
}

#[test]
fn direct_packets_chunking() {
    let colors: Vec<RgbColor> =
        (0..45).map(|i| RgbColor::new(i as u8, 0, 0)).collect();
    let packets = direct_packets(&colors);
    assert_eq!(packets.len(), 3);
    assert_eq!(packets[0][2], 0);
    assert_eq!(packets[0][3], MAX_LEDS_PER_PACKET as u8);
    assert_eq!(packets[1][2], 20);
    assert_eq!(packets[1][3], 20);
    assert_eq!(packets[2][2], 40);
    assert_eq!(packets[2][3], 5);
    // pixel bytes of the last chunk
    assert_eq!(packets[2][4], 40);
    assert_eq!(packets[2][7], 41);

    assert_eq!(direct_packets(&vec![]).len(), 0);
    assert_eq!(direct_packets(&vec![RgbColor::black()]).len(), 1);
}

#[test]
fn effect_raw_round_trip() {
    for e in [
        AuraEffect::Off,
        AuraEffect::Static,
        AuraEffect::Breathing,
        AuraEffect::ColorCycle,
        AuraEffect::Rainbow,
        AuraEffect::SpectrumCycle,
    ] {
        assert_eq!(AuraEffect::from_raw(e.to_raw()), Some(e));
    }
    assert_eq!(AuraEffect::from_raw(0x06), None);
    assert_eq!(AuraEffect::from_raw(0xFF), None);
}

#[test]
fn speed_bytes() {
    assert_eq!(AuraSpeed::Slow.to_raw(), 0x03);
    assert_eq!(AuraSpeed::Medium.to_raw(), 0x02);
    assert_eq!(AuraSpeed::Fast.to_raw(), 0x01);
}

#[test]
fn colors_and_ids() {
    assert_eq!(AURA_VID, 0x0B05);
    let c = RgbColor::new(9, 8, 7);
    assert_eq!((c.r, c.g, c.b), (9, 8, 7));
    let black = RgbColor::black();
    assert_eq!((black.r, black.g, black.b), (0, 0, 0));
    let white = RgbColor::white();
    assert_eq!((white.r, white.g, white.b), (255, 255, 255));
    let pids = aura_mb_pids();
    assert_eq!(pids, vec![0x1867, 0x1869, 0x18F3, 0x19AF, 0x1939, 0x1854]);
}
