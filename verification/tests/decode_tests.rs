use nocrate::decode::{count_from_bytes, rpm_from_count, temp_half_from_raw, temp_in_range};

#[test]
fn rpm_formula_typical_count() {
    // count = 0x053E = 1342 -> rpm = 1_350_000 / 1342 = 1005
    assert_eq!(rpm_from_count(1342), 1005);
}

#[test]
fn rpm_formula_sentinels_are_zero() {
    assert_eq!(rpm_from_count(0), 0);
    assert_eq!(rpm_from_count(0xFFFF), 0);
}

#[test]
fn rpm_formula_extremes() {
    assert_eq!(rpm_from_count(1), 1_350_000);
    assert_eq!(rpm_from_count(0xFFFE), 1_350_000 / 0xFFFE);
    assert_eq!(rpm_from_count(1350), 1000);
}

#[test]
fn count_assembles_big_endian() {
    assert_eq!(count_from_bytes(0x05, 0x3E), 0x053E);
    assert_eq!(count_from_bytes(0x00, 0x00), 0);
    assert_eq!(count_from_bytes(0xFF, 0xFF), 0xFFFF);
}

#[test]
fn temp_half_with_fraction_bit() {
    // 42 C with the half-degree bit -> 85 half-degrees (42.5 C)
    assert_eq!(temp_half_from_raw(42, true), 85);
    assert_eq!(temp_half_from_raw(42, false), 84);
}

#[test]
fn temp_half_negative_values() {
    // 0xD8 = -40 as a signed byte
    assert_eq!(temp_half_from_raw(0xD8, false), -80);
    assert_eq!(temp_half_from_raw(0xD8, true), -79);
    // 0x9C = -100: far below the plausible window
    assert_eq!(temp_half_from_raw(0x9C, false), -200);
}

#[test]
fn temp_range_window() {
    assert!(temp_in_range(-80));
    assert!(temp_in_range(250));
    assert!(!temp_in_range(-81));
    assert!(!temp_in_range(251));
    assert!(temp_in_range(0));
}
