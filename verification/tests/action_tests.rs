use std::rc::Rc;
use keyberon::action::Action;
use keyberon::action::d;
use keyberon::action::k;
use keyberon::action::l;
use keyberon::action::m;
use keyberon::key_code::KeyCode;

#[test]
fn action_shortcuts() {
    assert!(matches!(k::<()>(KeyCode::A), Action::KeyCode(KeyCode::A)));
    assert!(matches!(l::<()>(3), Action::Layer(3)));
    assert!(matches!(d::<()>(1), Action::DefaultLayer(1)));
    match m::<()>(vec![KeyCode::LShift, KeyCode::Kb1]) {
        Action::MultipleKeyCodes(v) => assert_eq!(*v, vec![KeyCode::LShift, KeyCode::Kb1]),
        _ => panic!("expected MultipleKeyCodes"),
    }
}

#[test]
fn action_layer() {
    assert_eq!(l::<()>(2).layer(), Some(2));
    assert_eq!(k::<()>(KeyCode::A).layer(), None);
    assert_eq!(d::<()>(2).layer(), None);
}

#[test]
fn action_key_codes() {
    assert_eq!(k::<()>(KeyCode::A).key_codes(), vec![KeyCode::A]);
    assert_eq!(
        m::<()>(vec![KeyCode::LCtrl, KeyCode::C]).key_codes(),
        vec![KeyCode::LCtrl, KeyCode::C],
    );
    assert_eq!(l::<()>(1).key_codes(), Vec::<KeyCode>::new());
    assert_eq!(Action::<()>::NoOp.key_codes(), Vec::<KeyCode>::new());
}

#[test]
fn action_dup_shares_table() {
    let a: Action<()> = Action::MultipleActions(Rc::new(vec![k(KeyCode::A), l(1)]));
    let b = a.dup();
    match (a, b) {
        (Action::MultipleActions(x), Action::MultipleActions(y)) => {
            assert!(Rc::ptr_eq(&x, &y));
        },
        _ => panic!("expected MultipleActions"),
    }
}
