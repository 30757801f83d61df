use keyberon::chording::ChordDef;
use keyberon::chording::Chording;
use keyberon::layout::Event;

fn chords() -> Vec<ChordDef> {
    vec![((0, 2), vec![(0, 0), (0, 1)])]
}

#[test]
fn single_press_release() {
    let mut chording = Chording::new(chords());

    // Verify a single press goes through chording unchanged
    let single_press = vec![Event::Press(0, 0)];
    assert_eq!(chording.tick(single_press), vec![Event::Press(0, 0)]);
    let single_release = vec![Event::Release(0, 0)];
    assert_eq!(chording.tick(single_release), vec![Event::Release(0, 0)]);
}

#[test]
fn chord_press_release() {
    let mut chording = Chording::new(chords());

    // Verify a chord is converted to the correct key
    let double_press = vec![Event::Press(0, 0), Event::Press(0, 1)];
    assert_eq!(chording.tick(double_press), vec![Event::Press(0, 2)]);
    let double_release = vec![Event::Release(0, 0), Event::Release(0, 1)];
    let chord_double_release = chording.tick(double_release);
    assert_eq!(chord_double_release, vec![Event::Release(0, 2)]);
}

#[test]
fn chord_press_half_release() {
    let mut chording = Chording::new(chords());

    // Verify a chord is converted to the correct key
    let double_press = vec![Event::Press(0, 0), Event::Press(0, 1)];
    assert_eq!(chording.tick(double_press), vec![Event::Press(0, 2)]);
    let first_release = vec![Event::Release(0, 0)];
    // we will see the key release pass through, but this won't matter
    assert_eq!(chording.tick(first_release), vec![Event::Release(0, 0)]);
    let second_release = vec![Event::Release(0, 1)];
    // once all keys of the combo are released, the combo is released
    assert_eq!(chording.tick(second_release), vec![Event::Release(0, 2)]);
}
