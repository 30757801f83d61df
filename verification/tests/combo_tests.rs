use keyberon::combo::Combo;
use keyberon::combo::Combination;
use keyberon::layout::Event;

fn paste_combo() -> Vec<Combination> {
    vec![((0, 0), (0, 1), (3, 0))]
}

#[test]
fn combo_passthrough() {
    let mut combo = Combo::new(paste_combo());
    let out = combo.tick(vec![Event::Press(1, 1)]);
    assert_eq!(out, vec![Event::Press(1, 1)]);
    let out = combo.tick(vec![Event::Release(1, 1)]);
    assert_eq!(out, vec![Event::Release(1, 1)]);
}

#[test]
fn combo_fires_on_pair() {
    let mut combo = Combo::new(paste_combo());
    // both keys in the same batch: the pair is replaced by the virtual key
    let out = combo.tick(vec![Event::Press(0, 0), Event::Press(0, 1)]);
    assert_eq!(out, vec![Event::Press(3, 0)]);
    // releasing one key consumes the release silently
    let out = combo.tick(vec![Event::Release(0, 0)]);
    assert_eq!(out, Vec::<Event>::new());
    // releasing the second emits the virtual release
    let out = combo.tick(vec![Event::Release(0, 1)]);
    assert_eq!(out, vec![Event::Release(3, 0)]);
}

#[test]
fn combo_single_press_passes() {
    let mut combo = Combo::new(paste_combo());
    // a single combo key press in one batch is not a combo
    let out = combo.tick(vec![Event::Press(0, 0)]);
    assert_eq!(out, vec![Event::Press(0, 0)]);
}
