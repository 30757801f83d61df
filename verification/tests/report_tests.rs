use keyberon::key_code::KbHidReport;
use keyberon::key_code::KeyCode;

#[test]
fn empty_report_bytes() {
    let report = KbHidReport::new();
    assert_eq!(report.as_bytes(), &[0u8; 8]);
}

#[test]
fn six_keys_fill_slots_in_order() {
    let mut report = KbHidReport::new();
    for kc in [KeyCode::A, KeyCode::B, KeyCode::C, KeyCode::D, KeyCode::E, KeyCode::F] {
        report.pressed(kc);
    }
    assert_eq!(report.as_bytes(), &[0, 0, 4, 5, 6, 7, 8, 9]);
}

#[test]
fn partial_fill_has_trailing_zeros() {
    let mut report = KbHidReport::new();
    report.pressed(KeyCode::Q);
    report.pressed(KeyCode::W);
    assert_eq!(report.as_bytes(), &[0, 0, 0x14, 0x1a, 0, 0, 0, 0]);
}

#[test]
fn seventh_key_floods_rollover() {
    let mut report = KbHidReport::new();
    for kc in [
        KeyCode::A,
        KeyCode::B,
        KeyCode::C,
        KeyCode::D,
        KeyCode::E,
        KeyCode::F,
        KeyCode::G,
    ] {
        report.pressed(kc);
    }
    // ErrorRollOver has usage value 1
    assert_eq!(report.as_bytes(), &[0, 0, 1, 1, 1, 1, 1, 1]);
}

#[test]
fn modifiers_set_bits_only() {
    let mut report = KbHidReport::new();
    report.pressed(KeyCode::LCtrl);
    report.pressed(KeyCode::LShift);
    report.pressed(KeyCode::RGui);
    assert_eq!(report.as_bytes(), &[0b1000_0011, 0, 0, 0, 0, 0, 0, 0]);
}

#[test]
fn modifiers_and_keys_mix() {
    let mut report = KbHidReport::new();
    report.pressed(KeyCode::LShift);
    report.pressed(KeyCode::A);
    assert_eq!(report.as_bytes(), &[0b0000_0010, 0, 4, 0, 0, 0, 0, 0]);
}

#[test]
fn no_key_is_ignored() {
    let mut report = KbHidReport::new();
    report.pressed(KeyCode::No);
    assert_eq!(report.as_bytes(), &[0u8; 8]);
}

#[test]
fn report_same_as() {
    let mut a = KbHidReport::new();
    let b = KbHidReport::new();
    assert!(a.same_as(&b));
    a.pressed(KeyCode::A);
    assert!(!a.same_as(&b));
}

#[test]
fn keycode_values() {
    assert_eq!(KeyCode::No.code(), 0x00);
    assert_eq!(KeyCode::A.code(), 0x04);
    assert_eq!(KeyCode::Kb1.code(), 0x1e);
    assert_eq!(KeyCode::Enter.code(), 0x28);
    assert_eq!(KeyCode::ExSel.code(), 0xa4);
    assert_eq!(KeyCode::LCtrl.code(), 0xe0);
    assert_eq!(KeyCode::RGui.code(), 0xe7);
    assert_eq!(KeyCode::MediaCalc.code(), 0xfb);
}

#[test]
fn is_modifier() {
    assert!(KeyCode::LCtrl.is_modifier());
    assert!(KeyCode::RGui.is_modifier());
    assert!(!KeyCode::A.is_modifier());
    assert!(!KeyCode::MediaPlayPause.is_modifier());
}

#[test]
fn as_modifier_bit() {
    assert_eq!(KeyCode::LCtrl.as_modifier_bit(), 1);
    assert_eq!(KeyCode::LShift.as_modifier_bit(), 2);
    assert_eq!(KeyCode::RGui.as_modifier_bit(), 0b1000_0000);
    assert_eq!(KeyCode::A.as_modifier_bit(), 0);
}
