use keyberon::key_code::KbHidReport;
use keyberon::key_code::KeyCode;
use keyberon::keyboard::Keyboard;
use keyberon::keyboard::Leds;
use keyberon::keyboard::ReportType;

#[derive(Default)]
struct TestLeds {
    num: bool,
    caps: bool,
    scroll: bool,
    compose: bool,
    kana: bool,
}

impl Leds for TestLeds {
    fn num_lock(&mut self, status: bool) {
        self.num = status;
    }

    fn caps_lock(&mut self, status: bool) {
        self.caps = status;
    }

    fn scroll_lock(&mut self, status: bool) {
        self.scroll = status;
    }

    fn compose(&mut self, status: bool) {
        self.compose = status;
    }

    fn kana(&mut self, status: bool) {
        self.kana = status;
    }
}

#[test]
fn keyboard_set_keyboard_report() {
    let mut kb = Keyboard::new(());
    let mut report = KbHidReport::new();
    assert!(!kb.set_keyboard_report(report.clone()));
    report.pressed(KeyCode::A);
    assert!(kb.set_keyboard_report(report.clone()));
    assert!(!kb.set_keyboard_report(report));
}

#[test]
fn keyboard_get_report() {
    let mut kb = Keyboard::new(());
    let mut report = KbHidReport::new();
    report.pressed(KeyCode::B);
    kb.set_keyboard_report(report);
    assert_eq!(kb.get_report(ReportType::Input, 0), Ok(&[0u8, 0, 5, 0, 0, 0, 0, 0][..]));
    assert_eq!(kb.get_report(ReportType::Output, 0), Err(()));
    assert_eq!(kb.get_report(ReportType::Feature, 0), Err(()));
}

#[test]
fn keyboard_set_report_leds() {
    let mut kb = Keyboard::new(TestLeds::default());
    // num lock bit 0, caps lock bit 1, scroll lock bit 2, compose bit
    // 3, kana bit 4
    assert_eq!(kb.set_report(ReportType::Output, 0, &[0b1_1010]), Ok(()));
    let leds = kb.leds_mut();
    assert!(!leds.num);
    assert!(leds.caps);
    assert!(!leds.scroll);
    assert!(leds.compose);
    assert!(leds.kana);
}

#[test]
fn keyboard_set_report_rejects() {
    let mut kb = Keyboard::new(TestLeds::default());
    assert_eq!(kb.set_report(ReportType::Input, 0, &[1]), Err(()));
    assert_eq!(kb.set_report(ReportType::Output, 1, &[1]), Err(()));
    assert_eq!(kb.set_report(ReportType::Output, 0, &[1, 2]), Err(()));
    assert_eq!(kb.set_report(ReportType::Output, 0, &[]), Err(()));
}
