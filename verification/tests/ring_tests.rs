use std::collections::BTreeSet;
use std::rc::Rc;
use keyberon::action::Action;
use keyberon::action::HoldTapAction;
use keyberon::action::HoldTapConfig;
use keyberon::action::k;
use keyberon::key_code::KeyCode;
use keyberon::layout::Event;
use keyberon::layout::Layers;
use keyberon::layout::Layout;

fn assert_ring_keys(expected: &[KeyCode], tested: Vec<KeyCode>) {
    let expected: BTreeSet<_> = expected.iter().copied().collect();
    let tested: BTreeSet<_> = tested.into_iter().collect();
    assert_eq!(expected, tested);
}

#[test]
fn stacked_ring_overflow_applies_oldest() {
    let layers: Layers<()> = vec![vec![vec![k(KeyCode::A), k(KeyCode::B)]]];
    let mut layout = Layout::new(layers);
    layout.event(Event::Press(0, 0));
    // fill the ring of 32 queued events without ticking
    for _ in 0..31 {
        layout.event(Event::Press(0, 1));
    }
    assert_ring_keys(&[], layout.keycodes());
    // the 33rd event displaces the oldest one, which is applied at once
    layout.event(Event::Press(0, 1));
    assert_ring_keys(&[KeyCode::A], layout.keycodes());
}

#[test]
fn stacked_ring_overflow_resolves_hold() {
    let layers: Layers<()> = vec![vec![vec![
        Action::HoldTap(Rc::new(HoldTapAction {
            timeout: 200,
            hold: k(KeyCode::LAlt),
            tap: k(KeyCode::Space),
            config: HoldTapConfig::Default,
            tap_hold_interval: 0,
        })),
        k(KeyCode::B),
    ]]];
    let mut layout = Layout::new(layers);
    layout.event(Event::Press(0, 0));
    layout.tick();
    // the hold/tap decision is now in flight; flood the ring
    for _ in 0..32 {
        layout.event(Event::Press(0, 1));
    }
    assert_ring_keys(&[], layout.keycodes());
    // the displaced press forces the in-flight decision to hold before
    // it is applied
    layout.event(Event::Press(0, 1));
    assert_ring_keys(&[KeyCode::LAlt, KeyCode::B], layout.keycodes());
}
