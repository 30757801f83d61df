use std::collections::BTreeSet;
use std::rc::Rc;
use keyberon::action::Action;
use keyberon::action::HoldTapAction;
use keyberon::action::HoldTapConfig;
use keyberon::action::k;
use keyberon::action::l;
use keyberon::action::m;
use keyberon::key_code::KeyCode;
use keyberon::layout::CustomEvent;
use keyberon::layout::Event;
use keyberon::layout::Layers;
use keyberon::layout::Layout;

fn assert_keys(expected: &[KeyCode], tested: Vec<KeyCode>) {
    let expected: BTreeSet<_> = expected.iter().copied().collect();
    let tested: BTreeSet<_> = tested.into_iter().collect();
    assert_eq!(expected, tested);
}

fn ht(
    timeout: u16,
    hold: Action<()>,
    tap: Action<()>,
    config: HoldTapConfig,
    tap_hold_interval: u16,
) -> Action<()> {
    Action::HoldTap(Rc::new(HoldTapAction { timeout, hold, tap, config, tap_hold_interval }))
}

#[test]
fn basic_hold_tap() {
    let layers: Layers<()> = vec![
        vec![vec![
            ht(200, l(1), k(KeyCode::Space), HoldTapConfig::Default, 0),
            ht(200, k(KeyCode::LCtrl), k(KeyCode::Enter), HoldTapConfig::Default, 0),
        ]],
        vec![vec![Action::Trans, m(vec![KeyCode::LCtrl, KeyCode::Enter])]],
    ];
    let mut layout = Layout::new(layers);
    assert_eq!(CustomEvent::NoEvent, layout.tick());
    assert_keys(&[], layout.keycodes());
    layout.event(Event::Press(0, 1));
    assert_eq!(CustomEvent::NoEvent, layout.tick());
    assert_keys(&[], layout.keycodes());
    layout.event(Event::Press(0, 0));
    assert_eq!(CustomEvent::NoEvent, layout.tick());
    assert_keys(&[], layout.keycodes());
    layout.event(Event::Release(0, 0));
    for _ in 0..197 {
        assert_eq!(CustomEvent::NoEvent, layout.tick());
        assert_keys(&[], layout.keycodes());
    }
    assert_eq!(CustomEvent::NoEvent, layout.tick());
    assert_keys(&[], layout.keycodes());
    assert_eq!(CustomEvent::NoEvent, layout.tick());
    assert_keys(&[KeyCode::LCtrl], layout.keycodes());
    assert_eq!(CustomEvent::NoEvent, layout.tick());
    assert_keys(&[KeyCode::LCtrl], layout.keycodes());
    assert_eq!(CustomEvent::NoEvent, layout.tick());
    assert_keys(&[KeyCode::LCtrl, KeyCode::Space], layout.keycodes());
    assert_eq!(CustomEvent::NoEvent, layout.tick());
    assert_keys(&[KeyCode::LCtrl], layout.keycodes());
    layout.event(Event::Release(0, 1));
    assert_eq!(CustomEvent::NoEvent, layout.tick());
    assert_keys(&[], layout.keycodes());
}

#[test]
fn hold_tap_interleaved_timeout() {
    let layers: Layers<()> = vec![vec![vec![
        ht(200, k(KeyCode::LAlt), k(KeyCode::Space), HoldTapConfig::Default, 0),
        ht(20, k(KeyCode::LCtrl), k(KeyCode::Enter), HoldTapConfig::Default, 0),
    ]]];
    let mut layout = Layout::new(layers);
    assert_eq!(CustomEvent::NoEvent, layout.tick());
    assert_keys(&[], layout.keycodes());
    layout.event(Event::Press(0, 0));
    assert_eq!(CustomEvent::NoEvent, layout.tick());
    assert_keys(&[], layout.keycodes());
    layout.event(Event::Press(0, 1));
    for _ in 0..15 {
        assert_eq!(CustomEvent::NoEvent, layout.tick());
        assert_keys(&[], layout.keycodes());
    }
    layout.event(Event::Release(0, 0));
    assert_eq!(CustomEvent::NoEvent, layout.tick());
    assert_keys(&[KeyCode::Space], layout.keycodes());
    for _ in 0..10 {
        assert_eq!(CustomEvent::NoEvent, layout.tick());
        assert_keys(&[KeyCode::Space], layout.keycodes());
    }
    layout.event(Event::Release(0, 1));
    assert_eq!(CustomEvent::NoEvent, layout.tick());
    assert_keys(&[KeyCode::Space, KeyCode::LCtrl], layout.keycodes());
    assert_eq!(CustomEvent::NoEvent, layout.tick());
    assert_keys(&[KeyCode::LCtrl], layout.keycodes());
    assert_eq!(CustomEvent::NoEvent, layout.tick());
    assert_keys(&[], layout.keycodes());
    assert_eq!(CustomEvent::NoEvent, layout.tick());
    assert_keys(&[], layout.keycodes());
}

#[test]
fn hold_on_press() {
    let layers: Layers<()> = vec![vec![vec![
        ht(200, k(KeyCode::LAlt), k(KeyCode::Space), HoldTapConfig::HoldOnOtherKeyPress, 0),
        k(KeyCode::Enter),
    ]]];
    let mut layout = Layout::new(layers);

    // Press another key before timeout
    assert_eq!(CustomEvent::NoEvent, layout.tick());
    assert_keys(&[], layout.keycodes());
    layout.event(Event::Press(0, 0));
    assert_eq!(CustomEvent::NoEvent, layout.tick());
    assert_keys(&[], layout.keycodes());
    layout.event(Event::Press(0, 1));
    assert_eq!(CustomEvent::NoEvent, layout.tick());
    assert_keys(&[KeyCode::LAlt], layout.keycodes());
    assert_eq!(CustomEvent::NoEvent, layout.tick());
    assert_keys(&[KeyCode::LAlt, KeyCode::Enter], layout.keycodes());
    layout.event(Event::Release(0, 0));
    assert_eq!(CustomEvent::NoEvent, layout.tick());
    assert_keys(&[KeyCode::Enter], layout.keycodes());
    layout.event(Event::Release(0, 1));
    assert_eq!(CustomEvent::NoEvent, layout.tick());
    assert_keys(&[], layout.keycodes());
    assert_eq!(CustomEvent::NoEvent, layout.tick());
    assert_keys(&[], layout.keycodes());

    // Press another key after timeout
    assert_eq!(CustomEvent::NoEvent, layout.tick());
    assert_keys(&[], layout.keycodes());
    layout.event(Event::Press(0, 0));
    for _ in 0..200 {
        assert_eq!(CustomEvent::NoEvent, layout.tick());
        assert_keys(&[], layout.keycodes());
    }
    assert_eq!(CustomEvent::NoEvent, layout.tick());
    assert_keys(&[KeyCode::LAlt], layout.keycodes());
    layout.event(Event::Press(0, 1));
    assert_eq!(CustomEvent::NoEvent, layout.tick());
    assert_keys(&[KeyCode::LAlt, KeyCode::Enter], layout.keycodes());
    layout.event(Event::Release(0, 0));
    assert_eq!(CustomEvent::NoEvent, layout.tick());
    assert_keys(&[KeyCode::Enter], layout.keycodes());
    layout.event(Event::Release(0, 1));
    assert_eq!(CustomEvent::NoEvent, layout.tick());
    assert_keys(&[], layout.keycodes());
    assert_eq!(CustomEvent::NoEvent, layout.tick());
    assert_keys(&[], layout.keycodes());
}

#[test]
fn permissive_hold() {
    let layers: Layers<()> = vec![vec![vec![
        ht(200, k(KeyCode::LAlt), k(KeyCode::Space), HoldTapConfig::PermissiveHold, 0),
        k(KeyCode::Enter),
    ]]];
    let mut layout = Layout::new(layers);

    // Press and release another key before timeout
    assert_eq!(CustomEvent::NoEvent, layout.tick());
    assert_keys(&[], layout.keycodes());
    layout.event(Event::Press(0, 0));
    assert_eq!(CustomEvent::NoEvent, layout.tick());
    assert_keys(&[], layout.keycodes());
    layout.event(Event::Press(0, 1));
    assert_eq!(CustomEvent::NoEvent, layout.tick());
    assert_keys(&[], layout.keycodes());
    layout.event(Event::Release(0, 1));
    assert_eq!(CustomEvent::NoEvent, layout.tick());
    assert_keys(&[KeyCode::LAlt], layout.keycodes());
    assert_eq!(CustomEvent::NoEvent, layout.tick());
    assert_keys(&[KeyCode::LAlt, KeyCode::Enter], layout.keycodes());
    assert_eq!(CustomEvent::NoEvent, layout.tick());
    assert_keys(&[KeyCode::LAlt], layout.keycodes());
    assert_eq!(CustomEvent::NoEvent, layout.tick());
    assert_keys(&[KeyCode::LAlt], layout.keycodes());
    layout.event(Event::Release(0, 0));
    assert_eq!(CustomEvent::NoEvent, layout.tick());
    assert_keys(&[], layout.keycodes());
    assert_eq!(CustomEvent::NoEvent, layout.tick());
    assert_keys(&[], layout.keycodes());
}

#[test]
fn stacked_hold_tap() {
    let layers: Layers<()> = vec![vec![vec![
        k(KeyCode::Enter),
        ht(10, k(KeyCode::LAlt), k(KeyCode::Space), HoldTapConfig::Default, 0),
    ]]];
    let mut layout = Layout::new(layers);
    assert_eq!(CustomEvent::NoEvent, layout.tick());
    // Push 2 events in a row, without ticking:
    // Press/Release attached to a HoldTap
    layout.event(Event::Press(0, 1));
    layout.event(Event::Release(0, 1));
    assert_eq!(CustomEvent::NoEvent, layout.tick());
    assert_eq!(CustomEvent::NoEvent, layout.tick());
}

#[test]
fn multiple_actions() {
    let layers: Layers<()> = vec![
        vec![vec![
            Action::MultipleActions(Rc::new(vec![l(1), k(KeyCode::LShift)])),
            k(KeyCode::F),
        ]],
        vec![vec![Action::Trans, k(KeyCode::E)]],
    ];
    let mut layout = Layout::new(layers);
    assert_eq!(CustomEvent::NoEvent, layout.tick());
    assert_keys(&[], layout.keycodes());
    layout.event(Event::Press(0, 0));
    assert_eq!(CustomEvent::NoEvent, layout.tick());
    assert_keys(&[KeyCode::LShift], layout.keycodes());
    layout.event(Event::Press(0, 1));
    assert_eq!(CustomEvent::NoEvent, layout.tick());
    assert_keys(&[KeyCode::LShift, KeyCode::E], layout.keycodes());
    layout.event(Event::Release(0, 1));
    layout.event(Event::Release(0, 0));
    assert_eq!(CustomEvent::NoEvent, layout.tick());
    assert_keys(&[KeyCode::LShift], layout.keycodes());
    assert_eq!(CustomEvent::NoEvent, layout.tick());
    assert_keys(&[], layout.keycodes());
}

#[test]
fn custom() {
    let layers: Layers<u8> = vec![vec![vec![Action::Custom(42)]]];
    let mut layout = Layout::new(layers);
    assert_eq!(CustomEvent::NoEvent, layout.tick());
    assert_keys(&[], layout.keycodes());

    // Custom event
    layout.event(Event::Press(0, 0));
    assert_eq!(CustomEvent::Press(42), layout.tick());
    assert_keys(&[], layout.keycodes());

    // nothing more
    assert_eq!(CustomEvent::NoEvent, layout.tick());
    assert_keys(&[], layout.keycodes());

    // release custom
    layout.event(Event::Release(0, 0));
    assert_eq!(CustomEvent::Release(42), layout.tick());
    assert_keys(&[], layout.keycodes());
}

#[test]
fn multiple_layers() {
    let layers: Layers<()> = vec![
        vec![vec![l(1), l(2)]],
        vec![vec![k(KeyCode::A), l(3)]],
        vec![vec![l(0), k(KeyCode::B)]],
        vec![vec![k(KeyCode::C), k(KeyCode::D)]],
    ];
    let mut layout = Layout::new(layers);
    assert_eq!(CustomEvent::NoEvent, layout.tick());
    assert_eq!(0, layout.current_layer());
    assert_keys(&[], layout.keycodes());

    // press L1
    layout.event(Event::Press(0, 0));
    assert_eq!(CustomEvent::NoEvent, layout.tick());
    assert_eq!(1, layout.current_layer());
    assert_keys(&[], layout.keycodes());
    // press L3 on L1
    layout.event(Event::Press(0, 1));
    assert_eq!(CustomEvent::NoEvent, layout.tick());
    assert_eq!(3, layout.current_layer());
    assert_keys(&[], layout.keycodes());
    // release L1, still on l3
    layout.event(Event::Release(0, 0));
    assert_eq!(CustomEvent::NoEvent, layout.tick());
    assert_eq!(3, layout.current_layer());
    assert_keys(&[], layout.keycodes());
    // press and release C on L3
    layout.event(Event::Press(0, 0));
    assert_eq!(CustomEvent::NoEvent, layout.tick());
    assert_keys(&[KeyCode::C], layout.keycodes());
    layout.event(Event::Release(0, 0));
    assert_eq!(CustomEvent::NoEvent, layout.tick());
    assert_keys(&[], layout.keycodes());
    // release L3, back to L0
    layout.event(Event::Release(0, 1));
    assert_eq!(CustomEvent::NoEvent, layout.tick());
    assert_eq!(0, layout.current_layer());
    assert_keys(&[], layout.keycodes());

    // back to empty, going to L2
    layout.event(Event::Press(0, 1));
    assert_eq!(CustomEvent::NoEvent, layout.tick());
    assert_eq!(2, layout.current_layer());
    assert_keys(&[], layout.keycodes());
    // and press the L0 key on L2
    layout.event(Event::Press(0, 0));
    assert_eq!(CustomEvent::NoEvent, layout.tick());
    assert_eq!(0, layout.current_layer());
    assert_keys(&[], layout.keycodes());
    // release the L0, back to L2
    layout.event(Event::Release(0, 0));
    assert_eq!(CustomEvent::NoEvent, layout.tick());
    assert_eq!(2, layout.current_layer());
    assert_keys(&[], layout.keycodes());
    // release the L2, back to L0
    layout.event(Event::Release(0, 1));
    assert_eq!(CustomEvent::NoEvent, layout.tick());
    assert_eq!(0, layout.current_layer());
    assert_keys(&[], layout.keycodes());
}

#[test]
fn tap_hold_interval() {
    let layers: Layers<()> = vec![vec![vec![
        ht(200, k(KeyCode::LAlt), k(KeyCode::Space), HoldTapConfig::Default, 200),
        k(KeyCode::Enter),
    ]]];
    let mut layout = Layout::new(layers);

    // press and release the HT key, expect tap action
    assert_eq!(CustomEvent::NoEvent, layout.tick());
    assert_keys(&[], layout.keycodes());
    layout.event(Event::Press(0, 0));
    assert_eq!(CustomEvent::NoEvent, layout.tick());
    assert_keys(&[], layout.keycodes());
    layout.event(Event::Release(0, 0));
    assert_eq!(CustomEvent::NoEvent, layout.tick());
    assert_keys(&[KeyCode::Space], layout.keycodes());
    assert_eq!(CustomEvent::NoEvent, layout.tick());
    assert_keys(&[], layout.keycodes());

    // press again within tap_hold_interval, tap action should be in
    // keycodes immediately
    layout.event(Event::Press(0, 0));
    assert_eq!(CustomEvent::NoEvent, layout.tick());
    assert_keys(&[KeyCode::Space], layout.keycodes());

    // tap action should continue to be in keycodes even after timeout
    for _ in 0..300 {
        assert_eq!(CustomEvent::NoEvent, layout.tick());
        assert_keys(&[KeyCode::Space], layout.keycodes());
    }
    layout.event(Event::Release(0, 0));
    assert_eq!(CustomEvent::NoEvent, layout.tick());
    assert_keys(&[], layout.keycodes());

    // Press again. This is outside the tap_hold_interval window, so
    // should result in hold action.
    layout.event(Event::Press(0, 0));
    for _ in 0..200 {
        assert_eq!(CustomEvent::NoEvent, layout.tick());
        assert_keys(&[], layout.keycodes());
    }
    assert_eq!(CustomEvent::NoEvent, layout.tick());
    assert_keys(&[KeyCode::LAlt], layout.keycodes());
    layout.event(Event::Release(0, 0));
    assert_eq!(CustomEvent::NoEvent, layout.tick());
    assert_keys(&[], layout.keycodes());
}

#[test]
fn tap_hold_interval_interleave() {
    let layers: Layers<()> = vec![vec![vec![
        ht(200, k(KeyCode::LAlt), k(KeyCode::Space), HoldTapConfig::Default, 200),
        k(KeyCode::Enter),
        ht(200, k(KeyCode::LAlt), k(KeyCode::Enter), HoldTapConfig::Default, 200),
    ]]];
    let mut layout = Layout::new(layers);

    // press and release the HT key, expect tap action
    assert_eq!(CustomEvent::NoEvent, layout.tick());
    assert_keys(&[], layout.keycodes());
    layout.event(Event::Press(0, 0));
    assert_eq!(CustomEvent::NoEvent, layout.tick());
    assert_keys(&[], layout.keycodes());
    layout.event(Event::Release(0, 0));
    assert_eq!(CustomEvent::NoEvent, layout.tick());
    assert_keys(&[KeyCode::Space], layout.keycodes());
    assert_eq!(CustomEvent::NoEvent, layout.tick());
    assert_keys(&[], layout.keycodes());

    // press a different key in between
    layout.event(Event::Press(0, 1));
    assert_eq!(CustomEvent::NoEvent, layout.tick());
    assert_keys(&[KeyCode::Enter], layout.keycodes());
    layout.event(Event::Release(0, 1));
    assert_eq!(CustomEvent::NoEvent, layout.tick());
    assert_keys(&[], layout.keycodes());

    // press HT key again, should result in hold action
    layout.event(Event::Press(0, 0));
    for _ in 0..200 {
        assert_eq!(CustomEvent::NoEvent, layout.tick());
        assert_keys(&[], layout.keycodes());
    }
    assert_eq!(CustomEvent::NoEvent, layout.tick());
    assert_keys(&[KeyCode::LAlt], layout.keycodes());
    layout.event(Event::Release(0, 0));
    assert_eq!(CustomEvent::NoEvent, layout.tick());
    assert_keys(&[], layout.keycodes());

    // press HT key, press+release diff key, release HT key
    assert_eq!(CustomEvent::NoEvent, layout.tick());
    assert_keys(&[], layout.keycodes());
    layout.event(Event::Press(0, 0));
    assert_eq!(CustomEvent::NoEvent, layout.tick());
    assert_keys(&[], layout.keycodes());
    layout.event(Event::Press(0, 1));
    assert_eq!(CustomEvent::NoEvent, layout.tick());
    assert_keys(&[], layout.keycodes());
    layout.event(Event::Release(0, 1));
    assert_eq!(CustomEvent::NoEvent, layout.tick());
    assert_keys(&[], layout.keycodes());
    layout.event(Event::Release(0, 0));
    assert_eq!(CustomEvent::NoEvent, layout.tick());
    assert_keys(&[KeyCode::Space], layout.keycodes());
    assert_eq!(CustomEvent::NoEvent, layout.tick());
    assert_keys(&[KeyCode::Enter, KeyCode::Space], layout.keycodes());
    assert_eq!(CustomEvent::NoEvent, layout.tick());
    assert_keys(&[KeyCode::Space], layout.keycodes());
    assert_eq!(CustomEvent::NoEvent, layout.tick());
    assert_keys(&[], layout.keycodes());

    // press HT key again, should result in hold action
    layout.event(Event::Press(0, 0));
    for _ in 0..200 {
        assert_eq!(CustomEvent::NoEvent, layout.tick());
        assert_keys(&[], layout.keycodes());
    }
    assert_eq!(CustomEvent::NoEvent, layout.tick());
    assert_keys(&[KeyCode::LAlt], layout.keycodes());
    layout.event(Event::Release(0, 0));
    assert_eq!(CustomEvent::NoEvent, layout.tick());
    assert_keys(&[], layout.keycodes());

    // press HT key, press+release diff (HT) key, release HT key
    assert_eq!(CustomEvent::NoEvent, layout.tick());
    assert_keys(&[], layout.keycodes());
    layout.event(Event::Press(0, 0));
    assert_eq!(CustomEvent::NoEvent, layout.tick());
    assert_keys(&[], layout.keycodes());
    layout.event(Event::Press(0, 2));
    assert_eq!(CustomEvent::NoEvent, layout.tick());
    assert_keys(&[], layout.keycodes());
    layout.event(Event::Release(0, 2));
    assert_eq!(CustomEvent::NoEvent, layout.tick());
    assert_keys(&[], layout.keycodes());
    layout.event(Event::Release(0, 0));
    assert_eq!(CustomEvent::NoEvent, layout.tick());
    assert_keys(&[KeyCode::Space], layout.keycodes());
    assert_eq!(CustomEvent::NoEvent, layout.tick());
    assert_keys(&[KeyCode::Space], layout.keycodes());
    assert_eq!(CustomEvent::NoEvent, layout.tick());
    assert_keys(&[KeyCode::Enter, KeyCode::Space], layout.keycodes());
    assert_eq!(CustomEvent::NoEvent, layout.tick());
    assert_keys(&[KeyCode::Space], layout.keycodes());
    assert_eq!(CustomEvent::NoEvent, layout.tick());
    assert_keys(&[], layout.keycodes());

    // press HT key again, should result in hold action
    layout.event(Event::Press(0, 0));
    for _ in 0..200 {
        assert_eq!(CustomEvent::NoEvent, layout.tick());
        assert_keys(&[], layout.keycodes());
    }
    assert_eq!(CustomEvent::NoEvent, layout.tick());
    assert_keys(&[KeyCode::LAlt], layout.keycodes());
}

#[test]
fn tap_hold_interval_short_hold() {
    let layers: Layers<()> = vec![vec![vec![
        ht(50, k(KeyCode::LAlt), k(KeyCode::Space), HoldTapConfig::Default, 200),
    ]]];
    let mut layout = Layout::new(layers);

    // press and hold the HT key, expect hold action
    assert_eq!(CustomEvent::NoEvent, layout.tick());
    assert_keys(&[], layout.keycodes());
    layout.event(Event::Press(0, 0));
    for _ in 0..50 {
        assert_eq!(CustomEvent::NoEvent, layout.tick());
        assert_keys(&[], layout.keycodes());
    }
    assert_eq!(CustomEvent::NoEvent, layout.tick());
    assert_keys(&[KeyCode::LAlt], layout.keycodes());
    layout.event(Event::Release(0, 0));
    assert_eq!(CustomEvent::NoEvent, layout.tick());
    assert_keys(&[], layout.keycodes());

    // press and hold the HT key, expect hold action, even though it's
    // within the tap_hold_interval
    assert_eq!(CustomEvent::NoEvent, layout.tick());
    assert_keys(&[], layout.keycodes());
    layout.event(Event::Press(0, 0));
    for _ in 0..50 {
        assert_eq!(CustomEvent::NoEvent, layout.tick());
        assert_keys(&[], layout.keycodes());
    }
    assert_eq!(CustomEvent::NoEvent, layout.tick());
    assert_keys(&[KeyCode::LAlt], layout.keycodes());
    layout.event(Event::Release(0, 0));
    assert_eq!(CustomEvent::NoEvent, layout.tick());
    assert_keys(&[], layout.keycodes());
}

#[test]
fn tap_hold_interval_different_hold() {
    let layers: Layers<()> = vec![vec![vec![
        ht(50, k(KeyCode::LAlt), k(KeyCode::Space), HoldTapConfig::Default, 200),
        ht(200, k(KeyCode::RAlt), k(KeyCode::Enter), HoldTapConfig::Default, 200),
    ]]];
    let mut layout = Layout::new(layers);

    // press HT1, press HT2, release HT1 after hold timeout, release
    // HT2, press HT2
    layout.event(Event::Press(0, 0));
    layout.event(Event::Press(0, 1));
    for _ in 0..50 {
        assert_eq!(CustomEvent::NoEvent, layout.tick());
        assert_keys(&[], layout.keycodes());
    }
    assert_eq!(CustomEvent::NoEvent, layout.tick());
    assert_keys(&[KeyCode::LAlt], layout.keycodes());
    layout.event(Event::Release(0, 0));
    assert_eq!(CustomEvent::NoEvent, layout.tick());
    assert_keys(&[KeyCode::LAlt], layout.keycodes());
    layout.event(Event::Release(0, 1));
    assert_eq!(CustomEvent::NoEvent, layout.tick());
    assert_keys(&[KeyCode::LAlt, KeyCode::Enter], layout.keycodes());
    assert_eq!(CustomEvent::NoEvent, layout.tick());
    assert_keys(&[KeyCode::Enter], layout.keycodes());
    // press HT2 again, should result in tap action
    layout.event(Event::Press(0, 1));
    assert_eq!(CustomEvent::NoEvent, layout.tick());
    assert_keys(&[], layout.keycodes());

    for _ in 0..300 {
        assert_eq!(CustomEvent::NoEvent, layout.tick());
        assert_keys(&[KeyCode::Enter], layout.keycodes());
    }
}
