use std::collections::BTreeSet;
use std::rc::Rc;
use keyberon::action::Action;
use keyberon::action::SequenceEvent;
use keyberon::action::k;
use keyberon::key_code::KeyCode;
use keyberon::layout::CustomEvent;
use keyberon::layout::Event;
use keyberon::layout::Layers;
use keyberon::layout::Layout;

fn assert_seq_keys(expected: &[KeyCode], tested: Vec<KeyCode>) {
    let expected: BTreeSet<_> = expected.iter().copied().collect();
    let tested: BTreeSet<_> = tested.into_iter().collect();
    assert_eq!(expected, tested);
}

#[test]
fn sequence_ctrl_c_macro() {
    let layers: Layers<()> = vec![vec![vec![Action::Sequence(Rc::new(vec![
        SequenceEvent::Press(KeyCode::LCtrl),
        SequenceEvent::Press(KeyCode::C),
        SequenceEvent::Release(KeyCode::C),
        SequenceEvent::Release(KeyCode::LCtrl),
    ]))]]];
    let mut layout = Layout::new(layers);
    layout.event(Event::Press(0, 0));
    // the trigger press is unstacked and the sequence enqueued
    assert_eq!(CustomEvent::NoEvent, layout.tick());
    assert_seq_keys(&[], layout.keycodes());
    assert_eq!(CustomEvent::NoEvent, layout.tick());
    assert_seq_keys(&[KeyCode::LCtrl], layout.keycodes());
    assert_eq!(CustomEvent::NoEvent, layout.tick());
    assert_seq_keys(&[KeyCode::LCtrl, KeyCode::C], layout.keycodes());
    assert_eq!(CustomEvent::NoEvent, layout.tick());
    assert_seq_keys(&[KeyCode::LCtrl], layout.keycodes());
    assert_eq!(CustomEvent::NoEvent, layout.tick());
    assert_seq_keys(&[], layout.keycodes());
}

#[test]
fn sequence_tap_and_delay() {
    let layers: Layers<()> = vec![vec![vec![Action::Sequence(Rc::new(vec![
        SequenceEvent::Tap(KeyCode::A),
        SequenceEvent::Delay(2),
        SequenceEvent::Press(KeyCode::B),
        SequenceEvent::Complete,
    ]))]]];
    let mut layout = Layout::new(layers);
    layout.event(Event::Press(0, 0));
    assert_eq!(CustomEvent::NoEvent, layout.tick());
    assert_seq_keys(&[], layout.keycodes());
    // tap: pressed for one tick
    assert_eq!(CustomEvent::NoEvent, layout.tick());
    assert_seq_keys(&[KeyCode::A], layout.keycodes());
    // the tap's release
    assert_eq!(CustomEvent::NoEvent, layout.tick());
    assert_seq_keys(&[], layout.keycodes());
    // the delay is read (counts as its first tick), then waits one more
    assert_eq!(CustomEvent::NoEvent, layout.tick());
    assert_seq_keys(&[], layout.keycodes());
    assert_eq!(CustomEvent::NoEvent, layout.tick());
    assert_seq_keys(&[], layout.keycodes());
    // the fake press
    assert_eq!(CustomEvent::NoEvent, layout.tick());
    assert_seq_keys(&[KeyCode::B], layout.keycodes());
    // complete: all outstanding fake presses are dropped
    assert_eq!(CustomEvent::NoEvent, layout.tick());
    assert_seq_keys(&[], layout.keycodes());
}

#[test]
fn cancel_sequence() {
    let layers: Layers<()> = vec![vec![vec![
        Action::Sequence(Rc::new(vec![
            SequenceEvent::Press(KeyCode::LCtrl),
            SequenceEvent::Press(KeyCode::C),
            SequenceEvent::Release(KeyCode::C),
            SequenceEvent::Release(KeyCode::LCtrl),
        ])),
        Action::CancelSequence,
        k(KeyCode::D),
    ]]];
    let mut layout = Layout::new(layers);
    layout.event(Event::Press(0, 0));
    assert_eq!(CustomEvent::NoEvent, layout.tick());
    assert_seq_keys(&[], layout.keycodes());
    assert_eq!(CustomEvent::NoEvent, layout.tick());
    assert_seq_keys(&[KeyCode::LCtrl], layout.keycodes());
    // cancel: the queue empties and the fake press is dropped
    layout.event(Event::Press(0, 1));
    assert_eq!(CustomEvent::NoEvent, layout.tick());
    assert_seq_keys(&[], layout.keycodes());
    assert_eq!(CustomEvent::NoEvent, layout.tick());
    assert_seq_keys(&[], layout.keycodes());
    // a normal key still works afterwards
    layout.event(Event::Press(0, 2));
    assert_eq!(CustomEvent::NoEvent, layout.tick());
    assert_seq_keys(&[KeyCode::D], layout.keycodes());
}
