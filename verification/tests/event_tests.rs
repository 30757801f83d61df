use keyberon::layout::Event;

#[test]
fn event_transform() {
    assert_eq!(Event::Press(3, 10), Event::Press(3, 1).transform(|i, j| (i, 11 - j)));
    assert_eq!(Event::Release(2, 8), Event::Release(2, 3).transform(|i, j| (i, 11 - j)));
}

#[test]
fn event_accessors() {
    assert_eq!(Event::Press(1, 2).coord(), (1, 2));
    assert_eq!(Event::Release(7, 5).coord(), (7, 5));
    assert!(Event::Press(0, 0).is_press());
    assert!(!Event::Press(0, 0).is_release());
    assert!(Event::Release(0, 0).is_release());
    assert!(!Event::Release(0, 0).is_press());
}
