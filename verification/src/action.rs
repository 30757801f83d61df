//! The different actions that can be done.

use vstd::prelude::*;
use std::rc::Rc;
use crate::key_code::KeyCode;

verus! {

/// Duplicates a shared handle to a part of the action table.
///
/// Relies on Rc::clone: the returned handle shares the same value.
#[verifier::external_body]
pub(crate) fn rc_dup<T>(rc: &Rc<T>) -> (r: Rc<T>)
    ensures
        r == *rc,
{
    Rc::clone(rc)
}

/// Behavior configuration of HoldTap.
#[derive(Debug, Clone, Copy, PartialEq, Eq, Structural)]
pub enum HoldTapConfig {
    /// Only the timeout will determine between hold and tap action.
    ///
    /// This is a sane default.
    Default,
    /// If there is a key press, the hold action is activated.
    ///
    /// This behavior is interesting for a key which the tap action is
    /// not used in the flow of typing, like escape for example. If
    /// you are annoyed by accidental tap, you can try this behavior.
    HoldOnOtherKeyPress,
    /// If there is a press and release of another key, the hold
    /// action is activated.
    ///
    /// This behavior is interesting for fast typists: the difference
    /// between hold and tap would more be based on the sequence of
    /// events than on timing.
    PermissiveHold,
}

/// A step of a pre-authored key macro, played back over several ticks
/// by the layout engine.
#[derive(Debug, Clone, Copy, PartialEq, Eq, Structural)]
pub enum SequenceEvent {
    /// Assert a fake key press.
    Press(KeyCode),
    /// Drop the fake press of the given key.
    Release(KeyCode),
    /// Assert a fake key press and drop it on the following tick.
    Tap(KeyCode),
    /// Wait the given number of ticks before the next step; the tick on
    /// which the delay is read counts as the first one.
    Delay(u16),
    /// End the sequence early, dropping all outstanding fake presses.
    Complete,
}

/// Perform different actions on key hold/tap.
///
/// If the key is held more than `timeout` ticks (usually
/// milliseconds), performs the `hold` action, else performs the
/// `tap` action. Mostly used with a modifier for the hold action
/// and a normal key on the tap action. Any action can be
/// performed, but using a `HoldTap` in a `HoldTap` is not
/// specified (but guaranteed to not crash).
///
/// Different behaviors can be configured using the config field,
/// but whatever the configuration is, if the key is pressed more
/// than `timeout`, the hold action is activated (if no other
/// action was determined before).
#[derive(Debug)]
pub struct HoldTapAction<T> {
    /// The duration, in ticks (usually milliseconds) giving the
    /// difference between a hold and a tap.
    pub timeout: u16,
    /// The hold action.
    pub hold: Action<T>,
    /// The tap action.
    pub tap: Action<T>,
    /// Behavior configuration.
    pub config: HoldTapConfig,
    /// Configuration of the tap and hold holds the tap action.
    ///
    /// If you press and release the key in such a way that the tap
    /// action is performed, and then press it again in less than
    /// `tap_hold_interval` ticks, the tap action will
    /// be held. This allows the tap action to be held by
    /// pressing, releasing and holding the key, allowing the computer
    /// to auto repeat the tap behavior. The timeout starts on the
    /// first press of the key, NOT on the release.
    ///
    /// Pressing a different key in between will not result in the
    /// behaviour described above; the HoldTap key must be pressed twice
    /// in a row.
    ///
    /// To deactivate the functionality, set this to 0.
    pub tap_hold_interval: u16,
}

/// The different actions that can be done.
///
/// Aggregate actions (several key codes, several actions, a hold/tap
/// pair, a sequence) share their contents through reference-counted
/// handles: the action table owns everything, and the engine takes
/// cheap copies of the handles while a key is in flight.
#[derive(Debug)]
pub enum Action<T> {
    /// No operation action: just do nothing.
    NoOp,
    /// Transparent, i.e. get the action from the default layer. On
    /// the default layer, it is equivalent to `NoOp`.
    Trans,
    /// A key code, i.e. a classic key.
    KeyCode(KeyCode),
    /// Multiple key codes sent at the same time, as if these keys
    /// were pressed at the same time. Useful to send a shifted key,
    /// or complex shortcuts like Ctrl+Alt+Del in a single key press.
    MultipleKeyCodes(Rc<Vec<KeyCode>>),
    /// Multiple actions sent at the same time.
    MultipleActions(Rc<Vec<Action<T>>>),
    /// While pressed, change the current layer. That's the classic
    /// Fn key. If several layer actions are held at the same time,
    /// the last pressed defines the current layer.
    Layer(usize),
    /// Change the default layer.
    DefaultLayer(usize),
    /// Perform different actions on key hold/tap (see [`HoldTapAction`]).
    HoldTap(Rc<HoldTapAction<T>>),
    /// Enqueue a pre-authored key macro, played back one step per tick.
    Sequence(Rc<Vec<SequenceEvent>>),
    /// Abort all running sequences, dropping their fake presses.
    CancelSequence,
    /// Custom action.
    ///
    /// Define a user defined action. This value can be anything you
    /// want, as long as it is copiable. It can be used to drive any
    /// non keyboard related actions that you might manage with key
    /// events.
    Custom(T),
}

impl<T: Copy> Action<T> {
    /// The layer number if the action is the `Layer` action.
    pub open spec fn spec_layer(&self) -> Option<usize> {
        match self {
            Action::Layer(n) => Some(*n),
            _ => None,
        }
    }

    /// Gets the layer number if the action is the `Layer` action.
    pub fn layer(&self) -> (r: Option<usize>)
        ensures
            r == self.spec_layer(),
    {
        match self {
            Action::Layer(n) => Some(*n),
            _ => None,
        }
    }

    /// The key codes the action presses directly.
    pub open spec fn spec_key_codes(&self) -> Seq<KeyCode> {
        match self {
            Action::KeyCode(kc) => seq![*kc],
            Action::MultipleKeyCodes(kcs) => kcs@,
            _ => Seq::empty(),
        }
    }

    /// Returns the `KeyCode`s corresponding to the action.
    pub fn key_codes(&self) -> (r: Vec<KeyCode>)
        ensures
            r@ == self.spec_key_codes(),
    {
        match self {
            Action::KeyCode(kc) => {
                let mut v: Vec<KeyCode> = Vec::new();
                v.push(*kc);
                proof {
                    assert(v@ =~= self.spec_key_codes());
                }
                v
            },
            Action::MultipleKeyCodes(kcs) => {
                let mut v: Vec<KeyCode> = Vec::new();
                let mut i: usize = 0;
                while i < kcs.len()
                    invariant
                        i <= kcs@.len(),
                        v@ == kcs@.take(i as int),
                    decreases kcs@.len() - i,
                {
                    v.push(kcs[i]);
                    proof {
                        assert(v@ =~= kcs@.take(i + 1 as int));
                    }
                    i += 1;
                }
                proof {
                    assert(v@ =~= kcs@);
                }
                v
            },
            _ => Vec::new(),
        }
    }

    /// Returns an action equal to this one, sharing the same handles to
    /// the action table.
    pub fn dup(&self) -> (r: Self)
        ensures
            r == *self,
    {
        match self {
            Action::NoOp => Action::NoOp,
            Action::Trans => Action::Trans,
            Action::KeyCode(kc) => Action::KeyCode(*kc),
            Action::MultipleKeyCodes(v) => Action::MultipleKeyCodes(rc_dup(v)),
            Action::MultipleActions(v) => Action::MultipleActions(rc_dup(v)),
            Action::Layer(n) => Action::Layer(*n),
            Action::DefaultLayer(n) => Action::DefaultLayer(*n),
            Action::HoldTap(h) => Action::HoldTap(rc_dup(h)),
            Action::Sequence(s) => Action::Sequence(rc_dup(s)),
            Action::CancelSequence => Action::CancelSequence,
            Action::Custom(t) => Action::Custom(*t),
        }
    }
}

/// A shortcut to create a `Action::KeyCode`, useful to create compact
/// layout.
pub fn k<T>(kc: KeyCode) -> (r: Action<T>)
    ensures
        r == Action::<T>::KeyCode(kc),
{
    Action::KeyCode(kc)
}

/// A shortcut to create a `Action::Layer`, useful to create compact
/// layout.
pub fn l<T>(layer: usize) -> (r: Action<T>)
    ensures
        r == Action::<T>::Layer(layer),
{
    Action::Layer(layer)
}

/// A shortcut to create a `Action::DefaultLayer`, useful to create compact
/// layout.
pub fn d<T>(layer: usize) -> (r: Action<T>)
    ensures
        r == Action::<T>::DefaultLayer(layer),
{
    Action::DefaultLayer(layer)
}

/// A shortcut to create a `Action::MultipleKeyCodes`, useful to
/// create compact layout.
pub fn m<T>(kcs: Vec<KeyCode>) -> (r: Action<T>)
    ensures
        r matches Action::MultipleKeyCodes(v) && v@ == kcs@,
{
    Action::MultipleKeyCodes(Rc::new(kcs))
}

} // verus!
