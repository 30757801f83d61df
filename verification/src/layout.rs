//! Layout management.
//!
//! The layout engine turns key events into sets of HID key codes. It
//! interprets a layered action table: layer switching, hold/tap
//! disambiguation, multi-code and multi-action keys, key-macro
//! sequences, and custom user actions.
//!
//! Every state change of the engine is specified by the transition
//! functions of this module (`s_tick`, `s_event`, `s_do_action`, ...):
//! the contract of each exec method says that it computes exactly the
//! corresponding transition.

use vstd::prelude::*;
use std::rc::Rc;
use arraydeque::ArrayDeque;
use arraydeque::behavior::Wrapping;
use crate::action::Action;
use crate::action::HoldTapConfig;
use crate::action::SequenceEvent;
use crate::action::rc_dup;
use crate::key_code::KeyCode;

verus! {

/// An event on the key matrix.
#[derive(Debug, Clone, Copy, PartialEq, Eq, Structural)]
pub enum Event {
    /// Press event with coordinates (i, j).
    Press(u8, u8),
    /// Release event with coordinates (i, j).
    Release(u8, u8),
}

impl Event {
    /// The coordinates (i, j) of the event.
    pub open spec fn spec_coord(self) -> (u8, u8) {
        match self {
            Event::Press(i, j) => (i, j),
            Event::Release(i, j) => (i, j),
        }
    }

    /// Returns the coordinates (i, j) of the event.
    pub fn coord(self) -> (r: (u8, u8))
        ensures
            r == self.spec_coord(),
    {
        match self {
            Event::Press(i, j) => (i, j),
            Event::Release(i, j) => (i, j),
        }
    }

    /// Transforms the coordinates of the event.
    pub fn transform<F: FnOnce(u8, u8) -> (u8, u8)>(self, f: F) -> (r: Self)
        requires
            f.requires((self.spec_coord().0, self.spec_coord().1)),
        ensures
            r is Press <==> self is Press,
            f.ensures((self.spec_coord().0, self.spec_coord().1), r.spec_coord()),
    {
        match self {
            Event::Press(i, j) => {
                let (i, j) = f(i, j);
                Event::Press(i, j)
            },
            Event::Release(i, j) => {
                let (i, j) = f(i, j);
                Event::Release(i, j)
            },
        }
    }

    /// Returns `true` if the event is a key press.
    pub fn is_press(self) -> (r: bool)
        ensures
            r == self is Press,
    {
        match self {
            Event::Press(..) => true,
            Event::Release(..) => false,
        }
    }

    /// Returns `true` if the event is a key release.
    pub fn is_release(self) -> (r: bool)
        ensures
            r == self is Release,
    {
        match self {
            Event::Release(..) => true,
            Event::Press(..) => false,
        }
    }
}

/// Event from custom action.
#[derive(Debug, Clone, Copy, PartialEq, Eq)]
pub enum CustomEvent<T> {
    /// No custom action.
    NoEvent,
    /// The given custom action key is pressed.
    Press(T),
    /// The given custom action key is released.
    Release(T),
}

impl<T: Copy> CustomEvent<T> {
    /// This event updated by a new one: an event can only grow in the
    /// order `NoEvent < Press < Release`.
    pub open spec fn merged(self, e: Self) -> Self {
        match (e, self) {
            (CustomEvent::Release(_), CustomEvent::NoEvent) => e,
            (CustomEvent::Release(_), CustomEvent::Press(_)) => e,
            (CustomEvent::Press(_), CustomEvent::NoEvent) => e,
            _ => self,
        }
    }

    /// Update an event according to a new event.
    fn update(&mut self, e: Self)
        ensures
            *final(self) == old(self).merged(e),
    {
        match (&e, &self) {
            (CustomEvent::Release(_), CustomEvent::NoEvent) => *self = e,
            (CustomEvent::Release(_), CustomEvent::Press(_)) => *self = e,
            (CustomEvent::Press(_), CustomEvent::NoEvent) => *self = e,
            _ => (),
        }
    }
}

/// One currently-asserted effect of the engine.
#[derive(Debug)]
pub enum State<T> {
    /// A press from the matrix produced this HID code.
    NormalKey {
        /// The asserted key code.
        keycode: KeyCode,
        /// The coordinate that owns the press.
        coord: (u8, u8),
    },
    /// A held layer shift.
    LayerModifier {
        /// The activated layer.
        value: usize,
        /// The coordinate that owns the shift.
        coord: (u8, u8),
    },
    /// A custom-action assertion.
    Custom {
        /// The user value surfaced by the action.
        value: T,
        /// The coordinate that owns the assertion.
        coord: (u8, u8),
    },
    /// A press asserted by a running sequence; it belongs to no
    /// coordinate.
    FakeKey {
        /// The asserted key code.
        keycode: KeyCode,
    },
}

impl<T: Copy> Copy for State<T> {

}

impl<T: Copy> Clone for State<T> {
    fn clone(&self) -> (r: Self)
        ensures
            r == *self,
    {
        *self
    }
}

impl<T: Copy> State<T> {
    /// The key code this state asserts, if any.
    pub open spec fn spec_keycode(self) -> Option<KeyCode> {
        match self {
            State::NormalKey { keycode, .. } => Some(keycode),
            State::FakeKey { keycode } => Some(keycode),
            _ => None,
        }
    }

    /// The layer this state activates, if any.
    pub open spec fn spec_layer(self) -> Option<usize> {
        match self {
            State::LayerModifier { value, .. } => Some(value),
            _ => None,
        }
    }

    /// Whether a release of `c` removes this state.
    pub open spec fn spec_released_by(self, c: (u8, u8)) -> bool {
        match self {
            State::NormalKey { coord, .. } => coord == c,
            State::LayerModifier { coord, .. } => coord == c,
            State::Custom { coord, .. } => coord == c,
            State::FakeKey { .. } => false,
        }
    }

    fn keycode(&self) -> (r: Option<KeyCode>)
        ensures
            r == self.spec_keycode(),
    {
        match self {
            State::NormalKey { keycode, .. } => Some(*keycode),
            State::FakeKey { keycode } => Some(*keycode),
            _ => None,
        }
    }

    fn get_layer(&self) -> (r: Option<usize>)
        ensures
            r == self.spec_layer(),
    {
        match self {
            State::LayerModifier { value, .. } => Some(*value),
            _ => None,
        }
    }

    /// The surviving state after a release of `c`, together with the
    /// custom pulse the removal produces.
    fn release(&self, c: (u8, u8), custom: &mut CustomEvent<T>) -> (r: Option<Self>)
        ensures
            r == if self.spec_released_by(c) {
                Option::<State<T>>::None
            } else {
                Some(*self)
            },
            *final(custom) == old(custom).merged(s_release_pulse(*self, c)),
    {
        let pulse: CustomEvent<T> = match *self {
            State::Custom { value, coord } if coord.0 == c.0 && coord.1 == c.1 => CustomEvent::Release(
                value,
            ),
            _ => CustomEvent::NoEvent,
        };
        custom.update(pulse);
        match *self {
            State::NormalKey { coord, .. } if coord.0 == c.0 && coord.1 == c.1 => None,
            State::LayerModifier { coord, .. } if coord.0 == c.0 && coord.1 == c.1 => None,
            State::Custom { coord, .. } if coord.0 == c.0 && coord.1 == c.1 => None,
            _ => Some(*self),
        }
    }
}

/// The custom pulse produced when a release of `c` removes `s`:
/// `Release` of the custom value if `s` is a custom assertion owned by
/// `c`, nothing otherwise.
pub open spec fn s_release_pulse<T: Copy>(s: State<T>, c: (u8, u8)) -> CustomEvent<T> {
    match s {
        State::Custom { value, coord } if coord == c => CustomEvent::Release(value),
        _ => CustomEvent::NoEvent,
    }
}

/// Bookkeeping for an in-flight hold/tap decision.
#[derive(Debug)]
pub struct WaitingState<T> {
    /// The coordinate whose press installed the decision.
    pub coord: (u8, u8),
    /// The ticks left until the decision defaults to hold.
    pub timeout: u16,
    /// The age the installing press had reached when it was unstacked.
    pub delay: u16,
    /// The action taken on hold.
    pub hold: Action<T>,
    /// The action taken on tap.
    pub tap: Action<T>,
    /// Behavior configuration.
    pub config: HoldTapConfig,
}

/// Actions that can be triggered for a key configured for HoldTap.
#[derive(Debug, Clone, Copy, PartialEq, Eq, Structural)]
pub enum WaitingAction {
    /// Trigger the holding event.
    Hold,
    /// Trigger the tapping event.
    Tap,
    /// Drop this event. It will act as if no key was pressed.
    NoOp,
}

/// An event, waiting in the ring to be processed.
#[derive(Debug, Clone, Copy, PartialEq, Eq, Structural)]
pub struct Stacked {
    /// The queued event.
    pub event: Event,
    /// The age of the event in ticks, saturating.
    pub since: u16,
}

impl Stacked {
    /// Get the [Event] from this object.
    pub fn event(&self) -> (r: Event)
        ensures
            r == self.event,
    {
        self.event
    }
}

/// Tracks the last coordinate a tap-capable key resolved at, so that a
/// quick re-press can repeat the tap action.
#[derive(Debug, Clone, Copy)]
pub struct TapHoldTracker {
    /// The last coordinate pressed.
    pub coord: (u8, u8),
    /// The ticks left in the tap-repeat window, saturating down.
    pub timeout: u16,
}

/// Bookkeeping for one running key-macro sequence.
#[derive(Debug)]
pub struct SequenceState {
    /// The steps of the sequence.
    pub remaining: Rc<Vec<SequenceEvent>>,
    /// The index of the next step to run.
    pub idx: usize,
    /// Ticks left of the current delay step.
    pub delay: u16,
    /// A fake press to drop on the next tick.
    pub tapped: Option<KeyCode>,
}

impl SequenceState {
    fn dup(&self) -> (r: Self)
        ensures
            r == *self,
    {
        SequenceState {
            remaining: rc_dup(&self.remaining),
            idx: self.idx,
            delay: self.delay,
            tapped: self.tapped,
        }
    }
}

/// The stacked-event ring: a bounded wrapping deque of queued events,
/// each encoded as `(is_press, i, j, age)`.
#[verifier::external_body]
pub struct EventStack {
    deque: ArrayDeque<(bool, u8, u8, u16), 32, Wrapping>,
}

/// What the ring holds, front to back.
pub uninterp spec fn stack_seq(d: EventStack) -> Seq<(bool, u8, u8, u16)>;

/// Relies on arraydeque's ArrayDeque::new: the new deque is empty.
#[verifier::external_body]
fn stack_new() -> (d: EventStack)
    ensures
        stack_seq(d) == Seq::<(bool, u8, u8, u16)>::empty(),
{
    EventStack { deque: ArrayDeque::new() }
}

/// Relies on ArrayDeque::len.
#[verifier::external_body]
fn stack_len(d: &EventStack) -> (r: usize)
    ensures
        r == stack_seq(*d).len(),
{
    d.deque.len()
}

/// Relies on the wrapping ArrayDeque::push_back: appends to the back,
/// popping and returning the frontmost element when the deque is full.
#[verifier::external_body]
fn stack_push_back(d: &mut EventStack, x: (bool, u8, u8, u16)) -> (r: Option<(bool, u8, u8, u16)>)
    ensures
        stack_seq(*old(d)).len() < 32 ==> stack_seq(*final(d)) == stack_seq(*old(d)).push(x) && r is None,
        stack_seq(*old(d)).len() >= 32 ==> stack_seq(*final(d)) == stack_seq(*old(d)).drop_first().push(x)
            && r == Some(stack_seq(*old(d))[0]),
{
    d.deque.push_back(x)
}

/// Relies on ArrayDeque::pop_front.
#[verifier::external_body]
fn stack_pop_front(d: &mut EventStack) -> (r: Option<(bool, u8, u8, u16)>)
    ensures
        stack_seq(*old(d)).len() == 0 ==> r is None && stack_seq(*final(d)) == stack_seq(*old(d)),
        stack_seq(*old(d)).len() > 0 ==> r == Some(stack_seq(*old(d))[0]) && stack_seq(*final(d))
            == stack_seq(*old(d)).drop_first(),
{
    d.deque.pop_front()
}

/// Relies on ArrayDeque::iter: front-to-back iteration over the ring.
#[verifier::external_body]
fn stack_snapshot(d: &EventStack) -> (r: Vec<(bool, u8, u8, u16)>)
    ensures
        r@ == stack_seq(*d),
{
    d.deque.iter().copied().collect()
}

/// The ring entry for a stacked event.
pub open spec fn tup_of(s: Stacked) -> (bool, u8, u8, u16) {
    (s.event is Press, s.event.spec_coord().0, s.event.spec_coord().1, s.since)
}

/// The stacked event a ring entry encodes.
pub open spec fn stk_of(t: (bool, u8, u8, u16)) -> Stacked {
    Stacked {
        event: if t.0 {
            Event::Press(t.1, t.2)
        } else {
            Event::Release(t.1, t.2)
        },
        since: t.3,
    }
}

fn tup_of_exec(s: Stacked) -> (r: (bool, u8, u8, u16))
    ensures
        r == tup_of(s),
{
    let c = s.event.coord();
    (s.event.is_press(), c.0, c.1, s.since)
}

fn stk_of_exec(t: (bool, u8, u8, u16)) -> (r: Stacked)
    ensures
        r == stk_of(t),
{
    Stacked {
        event: if t.0 {
            Event::Press(t.1, t.2)
        } else {
            Event::Release(t.1, t.2)
        },
        since: t.3,
    }
}

/// The engine state that the transition functions act on, as one
/// mathematical value.
pub ghost struct Eng<T> {
    /// The asserted effects, oldest first.
    pub states: Seq<State<T>>,
    /// The in-flight hold/tap decision, if any.
    pub waiting: Option<WaitingState<T>>,
    /// The queued events, oldest first.
    pub stacked: Seq<Stacked>,
    /// The running sequences, oldest first.
    pub sequences: Seq<SequenceState>,
    /// The tap-repeat tracker.
    pub tracker: TapHoldTracker,
    /// The default layer.
    pub default_layer: usize,
}

/// A tick counter one tick later, stopping at 0.
pub open spec fn s_dec(x: u16) -> u16 {
    if x == 0 {
        0
    } else {
        (x - 1) as u16
    }
}

/// An age one tick later, saturating at the top.
pub open spec fn s_inc(x: u16) -> u16 {
    if x == 0xffff {
        x
    } else {
        (x + 1) as u16
    }
}

/// A stacked event one tick older.
pub open spec fn s_age(s: Stacked) -> Stacked {
    Stacked { event: s.event, since: s_inc(s.since) }
}

/// The key codes asserted by the given states, in order.
pub open spec fn s_keycodes<T: Copy>(ss: Seq<State<T>>) -> Seq<KeyCode>
    decreases ss.len(),
{
    if ss.len() == 0 {
        Seq::empty()
    } else {
        s_keycodes(ss.drop_last()) + match ss.last().spec_keycode() {
            Some(k) => seq![k],
            None => Seq::empty(),
        }
    }
}

/// The states surviving a release of `c`.
pub open spec fn s_release_states<T: Copy>(ss: Seq<State<T>>, c: (u8, u8)) -> Seq<State<T>>
    decreases ss.len(),
{
    if ss.len() == 0 {
        Seq::empty()
    } else {
        s_release_states(ss.drop_last(), c) + if ss.last().spec_released_by(c) {
            Seq::empty()
        } else {
            seq![ss.last()]
        }
    }
}

/// The custom pulse produced by a release of `c`: the release of the
/// first custom assertion owned by `c`, if any.
pub open spec fn s_release_custom<T: Copy>(ss: Seq<State<T>>, c: (u8, u8)) -> CustomEvent<T>
    decreases ss.len(),
{
    if ss.len() == 0 {
        CustomEvent::NoEvent
    } else {
        s_release_custom(ss.drop_last(), c).merged(s_release_pulse(ss.last(), c))
    }
}

/// The current layer: the most recently activated layer modifier, or
/// the default layer.
pub open spec fn s_current_layer<T: Copy>(ss: Seq<State<T>>, default: usize) -> usize
    decreases ss.len(),
{
    if ss.len() == 0 {
        default
    } else {
        match ss.last().spec_layer() {
            Some(v) => v,
            None => s_current_layer(ss.drop_last(), default),
        }
    }
}

/// The states with one more asserted effect; a full set drops the
/// newcomer.
pub open spec fn s_push_state<T: Copy>(ss: Seq<State<T>>, s: State<T>) -> Seq<State<T>> {
    if ss.len() < 64 {
        ss.push(s)
    } else {
        ss
    }
}

/// The states after asserting one normal key per code, all owned by
/// `coord`.
pub open spec fn s_push_keycodes<T: Copy>(
    ss: Seq<State<T>>,
    kcs: Seq<KeyCode>,
    coord: (u8, u8),
) -> Seq<State<T>>
    decreases kcs.len(),
{
    if kcs.len() == 0 {
        ss
    } else {
        s_push_keycodes(
            s_push_state(ss, State::NormalKey { keycode: kcs[0], coord }),
            kcs.drop_first(),
            coord,
        )
    }
}

/// The states without any fake press of `k`.
pub open spec fn s_drop_fake<T: Copy>(ss: Seq<State<T>>, k: KeyCode) -> Seq<State<T>>
    decreases ss.len(),
{
    if ss.len() == 0 {
        Seq::empty()
    } else {
        s_drop_fake(ss.drop_last(), k) + if ss.last() matches State::FakeKey { keycode }
            && keycode == k {
            Seq::empty()
        } else {
            seq![ss.last()]
        }
    }
}

/// The states without any fake press.
pub open spec fn s_drop_fakes<T: Copy>(ss: Seq<State<T>>) -> Seq<State<T>>
    decreases ss.len(),
{
    if ss.len() == 0 {
        Seq::empty()
    } else {
        s_drop_fakes(ss.drop_last()) + if ss.last() is FakeKey {
            Seq::empty()
        } else {
            seq![ss.last()]
        }
    }
}

/// The action table cell at the given layer and coordinate, if the
/// table has one there.
pub open spec fn s_action_at<T: Copy>(
    layers: Seq<Vec<Vec<Action<T>>>>,
    layer: usize,
    coord: (u8, u8),
) -> Option<Action<T>> {
    if layer < layers.len() && (coord.0 as int) < layers[layer as int]@.len() && (coord.1 as int)
        < layers[layer as int]@[coord.0 as int]@.len() {
        Some(layers[layer as int]@[coord.0 as int]@[coord.1 as int])
    } else {
        None
    }
}

/// The action a press at `coord` resolves to on `layer`: a missing
/// cell acts as `NoOp`, and `Trans` falls through to the default
/// layer (acting as `NoOp` on the default layer itself).
pub open spec fn s_press_as_action<T: Copy>(
    layers: Seq<Vec<Vec<Action<T>>>>,
    default: usize,
    coord: (u8, u8),
    layer: usize,
) -> Action<T>
    decreases (if layer == default { 0int } else { 1int }),
{
    match s_action_at(layers, layer, coord) {
        Option::None => Action::NoOp,
        Option::Some(a) => if a is Trans {
            if layer != default {
                s_press_as_action(layers, default, coord, default)
            } else {
                Action::NoOp
            }
        } else {
            a
        },
    }
}

/// Whether the sequence still has work to do.
pub open spec fn s_seq_active(q: SequenceState) -> bool {
    q.idx < q.remaining@.len() || q.tapped is Some
}

/// One sequence advanced by one tick against the given states: wait
/// out a delay, else drop a pending tap, else run the next step.
pub open spec fn s_seq_step<T: Copy>(ss: Seq<State<T>>, q: SequenceState) -> (
    Seq<State<T>>,
    Option<SequenceState>,
) {
    let (ss2, q2): (Seq<State<T>>, SequenceState) = if q.delay > 0 {
        (ss, SequenceState { delay: (q.delay - 1) as u16, ..q })
    } else if q.tapped is Some {
        (s_drop_fake(ss, q.tapped->0), SequenceState { tapped: None, ..q })
    } else if q.idx < q.remaining@.len() {
        let next = q.remaining@[q.idx as int];
        let q1 = SequenceState { idx: (q.idx + 1) as usize, ..q };
        match next {
            SequenceEvent::Press(k) => (s_push_state(ss, State::FakeKey { keycode: k }), q1),
            SequenceEvent::Release(k) => (s_drop_fake(ss, k), q1),
            SequenceEvent::Tap(k) => (
                s_push_state(ss, State::FakeKey { keycode: k }),
                SequenceState { tapped: Some(k), ..q1 },
            ),
            SequenceEvent::Delay(d) => (ss, SequenceState { delay: s_dec(d), ..q1 }),
            SequenceEvent::Complete => (
                s_drop_fakes(ss),
                SequenceState { idx: q.remaining@.len() as usize, ..q },
            ),
        }
    } else {
        (ss, q)
    };
    (ss2, if s_seq_active(q2) {
        Some(q2)
    } else {
        None
    })
}

/// All sequences advanced by one tick, oldest first; a finished
/// sequence leaves the queue.
pub open spec fn s_seqs_tick<T: Copy>(ss: Seq<State<T>>, qs: Seq<SequenceState>) -> (
    Seq<State<T>>,
    Seq<SequenceState>,
)
    decreases qs.len(),
{
    if qs.len() == 0 {
        (ss, Seq::empty())
    } else {
        let (ss1, o) = s_seq_step(ss, qs[0]);
        let (ss2, rest) = s_seqs_tick(ss1, qs.drop_first());
        (
            ss2,
            match o {
                Some(q) => seq![q] + rest,
                None => rest,
            },
        )
    }
}

/// The engine after performing an action pressed at `coord`; `delay`
/// is the age the press had reached when it was unstacked.
pub open spec fn s_do_action<T: Copy>(
    layers: Seq<Vec<Vec<Action<T>>>>,
    e: Eng<T>,
    a: Action<T>,
    coord: (u8, u8),
    delay: u16,
) -> (Eng<T>, CustomEvent<T>)
    decreases a, 1int,
{
    match a {
        Action::NoOp => (e, CustomEvent::NoEvent),
        Action::Trans => (e, CustomEvent::NoEvent),
        Action::HoldTap(h) => {
            if h.tap_hold_interval == 0 || coord != e.tracker.coord || e.tracker.timeout == 0 {
                let w = WaitingState {
                    coord,
                    timeout: h.timeout,
                    delay,
                    hold: h.hold,
                    tap: h.tap,
                    config: h.config,
                };
                (
                    Eng {
                        waiting: Some(w),
                        tracker: TapHoldTracker { coord, timeout: h.tap_hold_interval },
                        ..e
                    },
                    CustomEvent::NoEvent,
                )
            } else {
                // A quick re-press of the same key within the tap-hold
                // window repeats the tap action at once; its own custom
                // pulse is not surfaced.
                let e1 = Eng { tracker: TapHoldTracker { timeout: 0, ..e.tracker }, ..e };
                let (e2, _) = s_do_action(layers, e1, h.tap, coord, delay);
                (
                    Eng { tracker: TapHoldTracker { coord, ..e2.tracker }, ..e2 },
                    CustomEvent::NoEvent,
                )
            }
        },
        Action::KeyCode(k) => (
            Eng {
                tracker: TapHoldTracker { coord, ..e.tracker },
                states: s_push_state(e.states, State::NormalKey { keycode: k, coord }),
                ..e
            },
            CustomEvent::NoEvent,
        ),
        Action::MultipleKeyCodes(v) => (
            Eng {
                tracker: TapHoldTracker { coord, ..e.tracker },
                states: s_push_keycodes(e.states, v@, coord),
                ..e
            },
            CustomEvent::NoEvent,
        ),
        Action::MultipleActions(v) => {
            let e1 = Eng { tracker: TapHoldTracker { coord, ..e.tracker }, ..e };
            s_do_actions(layers, e1, v@, coord, delay, CustomEvent::NoEvent)
        },
        Action::Layer(value) => (
            Eng {
                tracker: TapHoldTracker { coord, ..e.tracker },
                states: s_push_state(e.states, State::LayerModifier { value, coord }),
                ..e
            },
            CustomEvent::NoEvent,
        ),
        Action::DefaultLayer(value) => (
            Eng {
                tracker: TapHoldTracker { coord, ..e.tracker },
                default_layer: if value < layers.len() {
                    value
                } else {
                    e.default_layer
                },
                ..e
            },
            CustomEvent::NoEvent,
        ),
        Action::Sequence(s) => (
            Eng {
                tracker: TapHoldTracker { coord, ..e.tracker },
                sequences: if e.sequences.len() < 4 {
                    e.sequences.push(SequenceState { remaining: s, idx: 0, delay: 0, tapped: None })
                } else {
                    e.sequences
                },
                ..e
            },
            CustomEvent::NoEvent,
        ),
        Action::CancelSequence => (
            Eng {
                tracker: TapHoldTracker { coord, ..e.tracker },
                sequences: Seq::empty(),
                states: s_drop_fakes(e.states),
                ..e
            },
            CustomEvent::NoEvent,
        ),
        Action::Custom(t) => if e.states.len() < 64 {
            (
                Eng {
                    tracker: TapHoldTracker { coord, ..e.tracker },
                    states: e.states.push(State::Custom { value: t, coord }),
                    ..e
                },
                CustomEvent::Press(t),
            )
        } else {
            (Eng { tracker: TapHoldTracker { coord, ..e.tracker }, ..e }, CustomEvent::NoEvent)
        },
    }
}

/// The engine after performing each action in turn; the custom pulses
/// merge in order.
pub open spec fn s_do_actions<T: Copy>(
    layers: Seq<Vec<Vec<Action<T>>>>,
    e: Eng<T>,
    v: Seq<Action<T>>,
    coord: (u8, u8),
    delay: u16,
    acc: CustomEvent<T>,
) -> (Eng<T>, CustomEvent<T>)
    decreases v, 0int,
{
    if v.len() == 0 {
        (e, acc)
    } else {
        let (e1, c1) = s_do_action(layers, e, v[0], coord, delay);
        s_do_actions(layers, e1, v.drop_first(), coord, delay, acc.merged(c1))
    }
}

/// Whether any queued event is a press.
pub open spec fn s_press_exists(stacked: Seq<Stacked>) -> bool {
    exists|i: int| 0 <= i < stacked.len() && stacked[i].event is Press
}

/// Whether the queued events `i` and `j` are a press and its own
/// release, in that order.
pub open spec fn s_permissive_pair(stacked: Seq<Stacked>, i: int, j: int) -> bool {
    0 <= i < j < stacked.len() && stacked[i].event is Press && stacked[j].event == Event::Release(
        stacked[i].event.spec_coord().0,
        stacked[i].event.spec_coord().1,
    )
}

/// Whether some queued press is followed by its own release.
pub open spec fn s_permissive_exists(stacked: Seq<Stacked>) -> bool {
    exists|i: int, j: int| s_permissive_pair(stacked, i, j)
}

/// The first queued release of `coord`, if any.
pub open spec fn s_find_release(stacked: Seq<Stacked>, coord: (u8, u8)) -> Option<Stacked>
    decreases stacked.len(),
{
    if stacked.len() == 0 {
        None
    } else if stacked[0].event == Event::Release(coord.0, coord.1) {
        Some(stacked[0])
    } else {
        s_find_release(stacked.drop_first(), coord)
    }
}

/// The hold/tap decision for `w` (already aged this tick) given the
/// queued events, or `None` while the decision is still pending.
pub open spec fn s_waiting_decision<T: Copy>(w: WaitingState<T>, stacked: Seq<Stacked>) -> Option<
    WaitingAction,
> {
    if w.config is HoldOnOtherKeyPress && s_press_exists(stacked) {
        Some(WaitingAction::Hold)
    } else if w.config is PermissiveHold && s_permissive_exists(stacked) {
        Some(WaitingAction::Hold)
    } else {
        match s_find_release(stacked, w.coord) {
            Some(s) => if w.timeout + s.since >= w.delay {
                Some(WaitingAction::Tap)
            } else {
                Some(WaitingAction::Hold)
            },
            None => if w.timeout == 0 {
                Some(WaitingAction::Hold)
            } else {
                None
            },
        }
    }
}

/// The engine after resolving the in-flight decision as a hold.
pub open spec fn s_hold<T: Copy>(layers: Seq<Vec<Vec<Action<T>>>>, e: Eng<T>) -> (
    Eng<T>,
    CustomEvent<T>,
) {
    match e.waiting {
        Some(w) => {
            let tr = if w.coord == e.tracker.coord {
                TapHoldTracker { timeout: 0, ..e.tracker }
            } else {
                e.tracker
            };
            s_do_action(layers, Eng { waiting: None, tracker: tr, ..e }, w.hold, w.coord, 0)
        },
        None => (e, CustomEvent::NoEvent),
    }
}

/// The engine after resolving the in-flight decision as a tap.
pub open spec fn s_tap<T: Copy>(layers: Seq<Vec<Vec<Action<T>>>>, e: Eng<T>) -> (
    Eng<T>,
    CustomEvent<T>,
) {
    match e.waiting {
        Some(w) => s_do_action(layers, Eng { waiting: None, ..e }, w.tap, w.coord, 0),
        None => (e, CustomEvent::NoEvent),
    }
}

/// The engine after applying one unstacked event: a release drops the
/// states owned by its coordinate, a press resolves and performs the
/// action of its cell on the current layer.
pub open spec fn s_unstack<T: Copy>(layers: Seq<Vec<Vec<Action<T>>>>, e: Eng<T>, s: Stacked) -> (
    Eng<T>,
    CustomEvent<T>,
) {
    match s.event {
        Event::Release(i, j) => (
            Eng { states: s_release_states(e.states, (i, j)), ..e },
            s_release_custom(e.states, (i, j)),
        ),
        Event::Press(i, j) => {
            let a = s_press_as_action(
                layers,
                e.default_layer,
                (i, j),
                s_current_layer(e.states, e.default_layer),
            );
            s_do_action(layers, e, a, (i, j), s.since)
        },
    }
}

/// The engine one tick later: every queued event ages, the tap-repeat
/// window shrinks, the running sequences advance, and then either the
/// in-flight hold/tap decision is consulted or one queued event is
/// applied.
pub open spec fn s_tick<T: Copy>(layers: Seq<Vec<Vec<Action<T>>>>, e: Eng<T>) -> (
    Eng<T>,
    CustomEvent<T>,
) {
    let e1 = Eng {
        stacked: e.stacked.map(|i: int, s: Stacked| s_age(s)),
        tracker: TapHoldTracker { timeout: s_dec(e.tracker.timeout), ..e.tracker },
        ..e
    };
    let (ss2, qs2) = s_seqs_tick(e1.states, e1.sequences);
    let e2 = Eng { states: ss2, sequences: qs2, ..e1 };
    match e2.waiting {
        Some(w) => {
            let w1 = WaitingState { timeout: s_dec(w.timeout), ..w };
            let e3 = Eng { waiting: Some(w1), ..e2 };
            match s_waiting_decision(w1, e3.stacked) {
                Some(WaitingAction::Hold) => s_hold(layers, e3),
                Some(WaitingAction::Tap) => s_tap(layers, e3),
                Some(WaitingAction::NoOp) => (
                    Eng { waiting: None, ..e3 },
                    CustomEvent::NoEvent,
                ),
                None => (e3, CustomEvent::NoEvent),
            }
        },
        None => {
            if e2.stacked.len() > 0 {
                s_unstack(layers, Eng { stacked: e2.stacked.drop_first(), ..e2 }, e2.stacked[0])
            } else {
                (e2, CustomEvent::NoEvent)
            }
        },
    }
}

/// The engine after a new event arrives: the event is queued; when the
/// ring is full, the displaced oldest event is forced through first,
/// resolving any in-flight decision as a hold.
pub open spec fn s_event<T: Copy>(layers: Seq<Vec<Vec<Action<T>>>>, e: Eng<T>, ev: Event) -> Eng<
    T,
> {
    if e.stacked.len() < 32 {
        Eng { stacked: e.stacked.push(Stacked { event: ev, since: 0 }), ..e }
    } else {
        let displaced = e.stacked[0];
        let e1 = Eng { stacked: e.stacked.drop_first().push(Stacked { event: ev, since: 0 }), ..e };
        let (e2, _) = s_hold(layers, e1);
        let (e3, _) = s_unstack(layers, e2, displaced);
        e3
    }
}

/// What a ring entry becomes one tick later.
pub open spec fn age_t(t: (bool, u8, u8, u16)) -> (bool, u8, u8, u16) {
    (t.0, t.1, t.2, s_inc(t.3))
}

/// Asserts one more effect; a full set drops the newcomer.
fn push_state<T: Copy>(states: &mut Vec<State<T>>, s: State<T>)
    ensures
        final(states)@ == s_push_state(old(states)@, s),
{
    if states.len() < 64 {
        states.push(s);
    }
}

/// Asserts one normal key per code, all owned by `coord`.
fn push_keycodes<T: Copy>(states: &mut Vec<State<T>>, v: &Rc<Vec<KeyCode>>, coord: (u8, u8))
    ensures
        final(states)@ == s_push_keycodes(old(states)@, v@, coord),
{
    let mut i: usize = 0;
    proof {
        assert(v@.skip(0) =~= v@);
    }
    while i < v.len()
        invariant
            i <= v@.len(),
            s_push_keycodes(old(states)@, v@, coord) == s_push_keycodes(
                states@,
                v@.skip(i as int),
                coord,
            ),
        decreases v@.len() - i,
    {
        proof {
            assert(v@.skip(i as int)[0] == v@[i as int]);
            assert(v@.skip(i as int).drop_first() =~= v@.skip(i + 1 as int));
        }
        push_state(states, State::NormalKey { keycode: v[i], coord });
        i += 1;
    }
    proof {
        assert(v@.skip(v@.len() as int) =~= Seq::<KeyCode>::empty());
    }
}

/// Drops every fake press of `k`.
fn drop_fake<T: Copy>(states: &mut Vec<State<T>>, k: KeyCode)
    ensures
        final(states)@ == s_drop_fake(old(states)@, k),
{
    let mut kept: Vec<State<T>> = Vec::new();
    let mut i: usize = 0;
    while i < states.len()
        invariant
            i <= states@.len(),
            states@ == old(states)@,
            kept@ == s_drop_fake(states@.take(i as int), k),
        decreases states@.len() - i,
    {
        let s = states[i];
        match s {
            State::FakeKey { keycode } if keycode == k => (),
            _ => kept.push(s),
        }
        proof {
            assert(states@.take(i + 1 as int).drop_last() =~= states@.take(i as int));
            assert(states@.take(i + 1 as int).last() == states@[i as int]);
        }
        i += 1;
    }
    proof {
        assert(states@.take(states@.len() as int) =~= states@);
    }
    *states = kept;
}

/// Drops every fake press.
fn drop_fakes<T: Copy>(states: &mut Vec<State<T>>)
    ensures
        final(states)@ == s_drop_fakes(old(states)@),
{
    let mut kept: Vec<State<T>> = Vec::new();
    let mut i: usize = 0;
    while i < states.len()
        invariant
            i <= states@.len(),
            states@ == old(states)@,
            kept@ == s_drop_fakes(states@.take(i as int)),
        decreases states@.len() - i,
    {
        let s = states[i];
        match s {
            State::FakeKey { .. } => (),
            _ => kept.push(s),
        }
        proof {
            assert(states@.take(i + 1 as int).drop_last() =~= states@.take(i as int));
            assert(states@.take(i + 1 as int).last() == states@[i as int]);
        }
        i += 1;
    }
    proof {
        assert(states@.take(states@.len() as int) =~= states@);
    }
    *states = kept;
}

/// Drops every state owned by `c`, returning the custom pulse the
/// removals produce.
fn release_states<T: Copy>(states: &mut Vec<State<T>>, c: (u8, u8)) -> (ce: CustomEvent<T>)
    ensures
        final(states)@ == s_release_states(old(states)@, c),
        ce == s_release_custom(old(states)@, c),
{
    let mut kept: Vec<State<T>> = Vec::new();
    let mut custom: CustomEvent<T> = CustomEvent::NoEvent;
    let mut i: usize = 0;
    while i < states.len()
        invariant
            i <= states@.len(),
            states@ == old(states)@,
            kept@ == s_release_states(states@.take(i as int), c),
            custom == s_release_custom(states@.take(i as int), c),
        decreases states@.len() - i,
    {
        let s = states[i];
        match s.release(c, &mut custom) {
            Some(ks) => kept.push(ks),
            None => (),
        }
        proof {
            assert(states@.take(i + 1 as int).drop_last() =~= states@.take(i as int));
            assert(states@.take(i + 1 as int).last() == states@[i as int]);
        }
        i += 1;
    }
    proof {
        assert(states@.take(states@.len() as int) =~= states@);
    }
    *states = kept;
    custom
}

/// Advances one sequence by one tick against the given states,
/// returning its next state if it still has work to do.
fn seq_step<T: Copy>(states: &mut Vec<State<T>>, q: SequenceState) -> (r: Option<SequenceState>)
    ensures
        final(states)@ == s_seq_step(old(states)@, q).0,
        r == s_seq_step(old(states)@, q).1,
{
    let mut q2 = q;
    if q2.delay > 0 {
        q2.delay = q2.delay - 1;
    } else if q2.tapped.is_some() {
        let k = q2.tapped.unwrap();
        drop_fake(states, k);
        q2.tapped = None;
    } else if q2.idx < q2.remaining.len() {
        let ev = q2.remaining[q2.idx];
        q2.idx = q2.idx + 1;
        match ev {
            SequenceEvent::Press(k) => push_state(states, State::FakeKey { keycode: k }),
            SequenceEvent::Release(k) => drop_fake(states, k),
            SequenceEvent::Tap(k) => {
                push_state(states, State::FakeKey { keycode: k });
                q2.tapped = Some(k);
            },
            SequenceEvent::Delay(dl) => {
                q2.delay = if dl == 0 {
                    0
                } else {
                    dl - 1
                };
            },
            SequenceEvent::Complete => {
                drop_fakes(states);
                q2.idx = q2.remaining.len();
            },
        }
    }
    if q2.idx < q2.remaining.len() || q2.tapped.is_some() {
        Some(q2)
    } else {
        None
    }
}

/// Advances all running sequences by one tick, oldest first.
fn process_sequences<T: Copy>(states: &mut Vec<State<T>>, seqs: &mut Vec<SequenceState>)
    ensures
        final(states)@ == s_seqs_tick(old(states)@, old(seqs)@).0,
        final(seqs)@ == s_seqs_tick(old(states)@, old(seqs)@).1,
{
    let mut kept: Vec<SequenceState> = Vec::new();
    let mut i: usize = 0;
    let n = seqs.len();
    proof {
        assert(seqs@.skip(0) =~= seqs@);
        assert(Seq::<SequenceState>::empty() + s_seqs_tick(states@, seqs@).1 =~= s_seqs_tick(
            states@,
            seqs@,
        ).1);
    }
    while i < n
        invariant
            i <= seqs@.len(),
            n == seqs@.len(),
            seqs@ == old(seqs)@,
            s_seqs_tick(old(states)@, seqs@).0 == s_seqs_tick(states@, seqs@.skip(i as int)).0,
            s_seqs_tick(old(states)@, seqs@).1 == kept@ + s_seqs_tick(
                states@,
                seqs@.skip(i as int),
            ).1,
        decreases n - i,
    {
        proof {
            assert(seqs@.skip(i as int)[0] == seqs@[i as int]);
            assert(seqs@.skip(i as int).drop_first() =~= seqs@.skip(i + 1 as int));
        }
        let q = seqs[i].dup();
        let stepped = seq_step(states, q);
        match stepped {
            Some(q2) => {
                kept.push(q2);
                proof {
                    assert(kept@.drop_last() + (seq![q2] + s_seqs_tick(
                        states@,
                        seqs@.skip(i + 1 as int),
                    ).1) =~= kept@ + s_seqs_tick(states@, seqs@.skip(i + 1 as int)).1);
                }
            },
            None => (),
        }
        i += 1;
    }
    proof {
        assert(seqs@.skip(n as int) =~= Seq::<SequenceState>::empty());
        assert(kept@ + Seq::<SequenceState>::empty() =~= kept@);
    }
    *seqs = kept;
}

/// What one ring entry becomes one tick later.
fn age_tuple(t: (bool, u8, u8, u16)) -> (r: (bool, u8, u8, u16))
    ensures
        r == age_t(t),
{
    (t.0, t.1, t.2, if t.3 == 0xffffu16 {
        t.3
    } else {
        t.3 + 1
    })
}

/// Ages every queued event by one tick, in place.
///
/// Relies on ArrayDeque::iter_mut: it visits every element once, front
/// to back; the transformation itself is the verified `age_tuple`.
#[verifier::external_body]
fn stack_age(d: &mut EventStack)
    ensures
        stack_seq(*final(d)) == stack_seq(*old(d)).map(|i: int, t: (bool, u8, u8, u16)| age_t(t)),
{
    for t in d.deque.iter_mut() {
        *t = age_tuple(*t);
    }
}

/// Whether any of the given queued events is a press.
fn press_exists(v: &Vec<Stacked>) -> (r: bool)
    ensures
        r == s_press_exists(v@),
{
    let mut i: usize = 0;
    while i < v.len()
        invariant
            i <= v@.len(),
            forall|k: int| 0 <= k < i ==> !(v@[k].event is Press),
        decreases v@.len() - i,
    {
        if v[i].event.is_press() {
            proof {
                assert(0 <= i < v@.len() && v@[i as int].event is Press);
            }
            return true;
        }
        i += 1;
    }
    false
}

/// Whether some queued press among the given events is followed by its
/// own release.
fn permissive_exists(v: &Vec<Stacked>) -> (r: bool)
    ensures
        r == s_permissive_exists(v@),
{
    let mut x: usize = 0;
    while x < v.len()
        invariant
            x <= v@.len(),
            forall|i: int, j: int| i < x ==> !s_permissive_pair(v@, i, j),
        decreases v@.len() - x,
    {
        let sx = v[x];
        if sx.event.is_press() {
            let c = sx.event.coord();
            let mut y: usize = x + 1;
            while y < v.len()
                invariant
                    x < y <= v@.len(),
                    x < v@.len(),
                    sx == v@[x as int],
                    sx.event is Press,
                    c == sx.event.spec_coord(),
                    forall|i: int, j: int| i < x ==> !s_permissive_pair(v@, i, j),
                    forall|j: int| j < y ==> !s_permissive_pair(v@, x as int, j),
                decreases v@.len() - y,
            {
                let e = v[y].event;
                match e {
                    Event::Release(a, b) if a == c.0 && b == c.1 => {
                        proof {
                            assert(s_permissive_pair(v@, x as int, y as int));
                        }
                        return true;
                    },
                    _ => (),
                }
                proof {
                    assert(!s_permissive_pair(v@, x as int, y as int));
                }
                y += 1;
            }
            proof {
                assert(forall|j: int| !s_permissive_pair(v@, x as int, j));
            }
        } else {
            proof {
                assert(forall|j: int| !s_permissive_pair(v@, x as int, j));
            }
        }
        proof {
            assert(forall|i: int, j: int| i < x + 1 ==> !s_permissive_pair(v@, i, j));
        }
        x += 1;
    }
    false
}

/// The age of the first queued release of `coord`, if any.
fn find_release(v: &Vec<Stacked>, coord: (u8, u8)) -> (r: Option<u16>)
    ensures
        r == match s_find_release(v@, coord) {
            Some(s) => Some(s.since),
            None => None::<u16>,
        },
{
    let mut i: usize = 0;
    proof {
        assert(v@.skip(0) =~= v@);
    }
    while i < v.len()
        invariant
            i <= v@.len(),
            s_find_release(v@, coord) == s_find_release(v@.skip(i as int), coord),
        decreases v@.len() - i,
    {
        proof {
            assert(v@.skip(i as int)[0] == v@[i as int]);
            assert(v@.skip(i as int).drop_first() =~= v@.skip(i + 1 as int));
        }
        let e = v[i].event;
        match e {
            Event::Release(a, b) if a == coord.0 && b == coord.1 => {
                return Some(v[i].since);
            },
            _ => (),
        }
        i += 1;
    }
    proof {
        assert(v@.skip(v@.len() as int) =~= Seq::<Stacked>::empty());
    }
    None
}

/// The layers type: `layers[layer][row][column]` is the action of one
/// key on one layer.
pub type Layers<T> = Vec<Vec<Vec<Action<T>>>>;

/// The layout manager. It takes `Event`s and `tick`s as input, and
/// generates the key codes to report.
pub struct Layout<T> {
    layers: Vec<Vec<Vec<Action<T>>>>,
    default_layer: usize,
    states: Vec<State<T>>,
    waiting: Option<WaitingState<T>>,
    stacked: EventStack,
    tap_hold_tracker: TapHoldTracker,
    sequences: Vec<SequenceState>,
}

impl<T: Copy> Layout<T> {
    /// The action table.
    pub closed spec fn layers_seq(&self) -> Seq<Vec<Vec<Action<T>>>> {
        self.layers@
    }

    /// The engine state as one mathematical value.
    pub closed spec fn eng(&self) -> Eng<T> {
        Eng {
            states: self.states@,
            waiting: self.waiting,
            stacked: stack_seq(self.stacked).map(|i: int, t: (bool, u8, u8, u16)| stk_of(t)),
            sequences: self.sequences@,
            tracker: self.tap_hold_tracker,
            default_layer: self.default_layer,
        }
    }

    /// The engine state a fresh layout starts in.
    pub open spec fn initial_eng() -> Eng<T> {
        Eng {
            states: Seq::empty(),
            waiting: None,
            stacked: Seq::empty(),
            sequences: Seq::empty(),
            tracker: TapHoldTracker { coord: (0, 0), timeout: 0 },
            default_layer: 0,
        }
    }

    /// Creates a new `Layout` object.
    pub fn new(layers: Layers<T>) -> (r: Self)
        ensures
            r.layers_seq() == layers@,
            r.eng() == Self::initial_eng(),
    {
        let r = Layout {
            layers,
            default_layer: 0,
            states: Vec::new(),
            waiting: None,
            stacked: stack_new(),
            tap_hold_tracker: TapHoldTracker { coord: (0, 0), timeout: 0 },
            sequences: Vec::new(),
        };
        proof {
            assert(r.eng().stacked =~= Seq::<Stacked>::empty());
        }
        r
    }

    /// Iterates on the key codes of the current state: every code a
    /// normal key or a fake key asserts, oldest first.
    pub fn keycodes(&self) -> (r: Vec<KeyCode>)
        ensures
            r@ == s_keycodes(self.eng().states),
    {
        let mut r: Vec<KeyCode> = Vec::new();
        let mut i: usize = 0;
        while i < self.states.len()
            invariant
                i <= self.states@.len(),
                r@ == s_keycodes(self.states@.take(i as int)),
            decreases self.states@.len() - i,
        {
            let s = self.states[i];
            match s.keycode() {
                Some(k) => r.push(k),
                None => (),
            }
            proof {
                assert(self.states@.take(i + 1 as int).drop_last() =~= self.states@.take(i as int));
                assert(self.states@.take(i + 1 as int).last() == self.states@[i as int]);
            }
            i += 1;
        }
        proof {
            assert(self.states@.take(self.states@.len() as int) =~= self.states@);
        }
        r
    }

    /// Obtain the index of the current active layer: the value of the
    /// most recently pushed layer modifier, or the default layer.
    pub fn current_layer(&self) -> (r: usize)
        ensures
            r == s_current_layer(self.eng().states, self.eng().default_layer),
            r == self.eng().default_layer || exists|k: int|
                0 <= k < self.eng().states.len() && self.eng().states[k].spec_layer() == Some(r),
    {
        let mut i: usize = self.states.len();
        proof {
            assert(self.states@.take(self.states@.len() as int) =~= self.states@);
        }
        while i > 0
            invariant
                i <= self.states@.len(),
                s_current_layer(self.states@, self.default_layer) == s_current_layer(
                    self.states@.take(i as int),
                    self.default_layer,
                ),
            decreases i,
        {
            let s = self.states[i - 1];
            proof {
                assert(self.states@.take(i as int).last() == self.states@[i - 1 as int]);
                assert(self.states@.take(i as int).drop_last() =~= self.states@.take(i - 1 as int));
            }
            match s.get_layer() {
                Some(v) => {
                    proof {
                        let k = i - 1 as int;
                        assert(0 <= k < self.eng().states.len() && self.eng().states[k].spec_layer()
                            == Some(v));
                    }
                    return v;
                },
                None => (),
            }
            i -= 1;
        }
        proof {
            assert(self.states@.take(0) =~= Seq::<State<T>>::empty());
        }
        self.default_layer
    }

    /// Sets the default layer for the layout; a layer the table does
    /// not have is ignored.
    pub fn set_default_layer(&mut self, value: usize)
        ensures
            final(self).eng() == (Eng {
                default_layer: if value < old(self).layers_seq().len() {
                    value
                } else {
                    old(self).eng().default_layer
                },
                ..old(self).eng()
            }),
            final(self).layers_seq() == old(self).layers_seq(),
    {
        if value < self.layers.len() {
            self.default_layer = value;
        }
    }

    /// Resolves the action a press at `coord` performs on `layer`.
    fn press_as_action(&self, coord: (u8, u8), layer: usize) -> (r: Action<T>)
        ensures
            r == s_press_as_action(self.layers_seq(), self.default_layer, coord, layer),
        decreases (if layer == self.default_layer {
            0int
        } else {
            1int
        }),
    {
        let action: Option<&Action<T>> = if layer < self.layers.len() {
            let lyr = &self.layers[layer];
            if (coord.0 as usize) < lyr.len() {
                let row = &lyr[coord.0 as usize];
                if (coord.1 as usize) < row.len() {
                    Some(&row[coord.1 as usize])
                } else {
                    None
                }
            } else {
                None
            }
        } else {
            None
        };
        match action {
            None => Action::NoOp,
            Some(a) => {
                match a {
                    Action::Trans => {
                        if layer != self.default_layer {
                            self.press_as_action(coord, self.default_layer)
                        } else {
                            Action::NoOp
                        }
                    },
                    _ => a.dup(),
                }
            },
        }
    }

    /// The queued events, oldest first.
    fn snapshot_stacked(&self) -> (r: Vec<Stacked>)
        ensures
            r@ == self.eng().stacked,
    {
        let ts = stack_snapshot(&self.stacked);
        let mut r: Vec<Stacked> = Vec::new();
        let mut i: usize = 0;
        while i < ts.len()
            invariant
                i <= ts@.len(),
                ts@ == stack_seq(self.stacked),
                r@ == ts@.take(i as int).map(|k: int, t: (bool, u8, u8, u16)| stk_of(t)),
            decreases ts@.len() - i,
        {
            r.push(stk_of_exec(ts[i]));
            proof {
                assert(r@ =~= ts@.take(i + 1 as int).map(
                    |k: int, t: (bool, u8, u8, u16)| stk_of(t),
                ));
            }
            i += 1;
        }
        proof {
            assert(ts@.take(ts@.len() as int) =~= ts@);
        }
        r
    }

    /// Consults the in-flight hold/tap decision, already aged this
    /// tick, against the queued events.
    fn waiting_decision(&self) -> (r: Option<WaitingAction>)
        requires
            self.waiting is Some,
        ensures
            r == s_waiting_decision(self.waiting->0, self.eng().stacked),
    {
        let snap = self.snapshot_stacked();
        let w = self.waiting.as_ref().unwrap();
        match w.config {
            HoldTapConfig::HoldOnOtherKeyPress => {
                if press_exists(&snap) {
                    return Some(WaitingAction::Hold);
                }
            },
            HoldTapConfig::PermissiveHold => {
                if permissive_exists(&snap) {
                    return Some(WaitingAction::Hold);
                }
            },
            HoldTapConfig::Default => (),
        }
        match find_release(&snap, w.coord) {
            Some(since) => {
                if (w.timeout as u32) + (since as u32) >= (w.delay as u32) {
                    Some(WaitingAction::Tap)
                } else {
                    Some(WaitingAction::Hold)
                }
            },
            None => {
                if w.timeout == 0 {
                    Some(WaitingAction::Hold)
                } else {
                    None
                }
            },
        }
    }

    /// Resolves the in-flight decision as a hold, performing the hold
    /// action.
    fn waiting_into_hold(&mut self) -> (ce: CustomEvent<T>)
        ensures
            ({
                let (e2, c2) = s_hold(old(self).layers_seq(), old(self).eng());
                final(self).eng() == e2 && ce == c2
            }),
            final(self).layers_seq() == old(self).layers_seq(),
    {
        if self.waiting.is_some() {
            let w = self.waiting.as_ref().unwrap();
            let hold = w.hold.dup();
            let coord = w.coord;
            self.waiting = None;
            if coord.0 == self.tap_hold_tracker.coord.0 && coord.1 == self.tap_hold_tracker.coord.1
            {
                self.tap_hold_tracker.timeout = 0;
            }
            self.do_action(&hold, coord, 0)
        } else {
            CustomEvent::NoEvent
        }
    }

    /// Resolves the in-flight decision as a tap, performing the tap
    /// action.
    fn waiting_into_tap(&mut self) -> (ce: CustomEvent<T>)
        ensures
            ({
                let (e2, c2) = s_tap(old(self).layers_seq(), old(self).eng());
                final(self).eng() == e2 && ce == c2
            }),
            final(self).layers_seq() == old(self).layers_seq(),
    {
        if self.waiting.is_some() {
            let w = self.waiting.as_ref().unwrap();
            let tap = w.tap.dup();
            let coord = w.coord;
            self.waiting = None;
            self.do_action(&tap, coord, 0)
        } else {
            CustomEvent::NoEvent
        }
    }

    /// Discards the in-flight decision without effect.
    fn drop_waiting(&mut self) -> (ce: CustomEvent<T>)
        ensures
            final(self).eng() == (Eng { waiting: None, ..old(self).eng() }),
            ce == CustomEvent::<T>::NoEvent,
            final(self).layers_seq() == old(self).layers_seq(),
    {
        self.waiting = None;
        CustomEvent::NoEvent
    }

    /// Performs an action pressed at `coord`; `delay` is the age the
    /// press had reached when it was unstacked.
    fn do_action(&mut self, action: &Action<T>, coord: (u8, u8), delay: u16) -> (ce: CustomEvent<
        T,
    >)
        ensures
            ({
                let (e2, c2) = s_do_action(
                    old(self).layers_seq(),
                    old(self).eng(),
                    *action,
                    coord,
                    delay,
                );
                final(self).eng() == e2 && ce == c2
            }),
            final(self).layers_seq() == old(self).layers_seq(),
        decreases *action, 1int,
    {
        match action {
            Action::NoOp => CustomEvent::NoEvent,
            Action::Trans => CustomEvent::NoEvent,
            Action::HoldTap(h) => {
                let same_coord = coord.0 == self.tap_hold_tracker.coord.0 && coord.1
                    == self.tap_hold_tracker.coord.1;
                if h.tap_hold_interval == 0 || !same_coord || self.tap_hold_tracker.timeout == 0 {
                    let w = WaitingState {
                        coord,
                        timeout: h.timeout,
                        delay,
                        hold: h.hold.dup(),
                        tap: h.tap.dup(),
                        config: h.config,
                    };
                    self.waiting = Some(w);
                    self.tap_hold_tracker.timeout = h.tap_hold_interval;
                } else {
                    self.tap_hold_tracker.timeout = 0;
                    let tap = h.tap.dup();
                    let _ = self.do_action(&tap, coord, delay);
                }
                // The tracker coordinate is set after the same-coord
                // check, so that the tap-repeat window belongs to the
                // key pressed last.
                self.tap_hold_tracker.coord = coord;
                CustomEvent::NoEvent
            },
            Action::KeyCode(k) => {
                self.tap_hold_tracker.coord = coord;
                push_state(&mut self.states, State::NormalKey { keycode: *k, coord });
                CustomEvent::NoEvent
            },
            Action::MultipleKeyCodes(v) => {
                self.tap_hold_tracker.coord = coord;
                push_keycodes(&mut self.states, v, coord);
                CustomEvent::NoEvent
            },
            Action::MultipleActions(v) => {
                self.tap_hold_tracker.coord = coord;
                let ghost e_start = self.eng();
                let mut custom: CustomEvent<T> = CustomEvent::NoEvent;
                let mut i: usize = 0;
                proof {
                    assert(v@.skip(0) =~= v@);
                }
                while i < v.len()
                    invariant
                        i <= v@.len(),
                        *action == Action::MultipleActions(*v),
                        self.layers_seq() == old(self).layers_seq(),
                        s_do_actions(
                            old(self).layers_seq(),
                            e_start,
                            v@,
                            coord,
                            delay,
                            CustomEvent::NoEvent,
                        ) == s_do_actions(
                            old(self).layers_seq(),
                            self.eng(),
                            v@.skip(i as int),
                            coord,
                            delay,
                            custom,
                        ),
                    decreases v@.len() - i,
                {
                    proof {
                        assert(v@.skip(i as int)[0] == v@[i as int]);
                        assert(v@.skip(i as int).drop_first() =~= v@.skip(i + 1 as int));
                        assert(action->MultipleActions_0 == *v);
                        assert(decreases_to!(*action => action->MultipleActions_0));
                        assert(decreases_to!(**v => (**v)@));
                        assert(decreases_to!(v@ => v@[i as int]));
                        assert(decreases_to!(*action => v@[i as int]));
                    }
                    let a = v[i].dup();
                    let c = self.do_action(&a, coord, delay);
                    custom.update(c);
                    i += 1;
                }
                proof {
                    assert(v@.skip(v@.len() as int) =~= Seq::<Action<T>>::empty());
                }
                custom
            },
            Action::Layer(value) => {
                self.tap_hold_tracker.coord = coord;
                push_state(&mut self.states, State::LayerModifier { value: *value, coord });
                CustomEvent::NoEvent
            },
            Action::DefaultLayer(value) => {
                self.tap_hold_tracker.coord = coord;
                if *value < self.layers.len() {
                    self.default_layer = *value;
                }
                CustomEvent::NoEvent
            },
            Action::Sequence(s) => {
                self.tap_hold_tracker.coord = coord;
                if self.sequences.len() < 4 {
                    self.sequences.push(
                        SequenceState { remaining: rc_dup(s), idx: 0, delay: 0, tapped: None },
                    );
                }
                CustomEvent::NoEvent
            },
            Action::CancelSequence => {
                self.tap_hold_tracker.coord = coord;
                self.sequences.clear();
                drop_fakes(&mut self.states);
                CustomEvent::NoEvent
            },
            Action::Custom(t) => {
                self.tap_hold_tracker.coord = coord;
                if self.states.len() < 64 {
                    self.states.push(State::Custom { value: *t, coord });
                    CustomEvent::Press(*t)
                } else {
                    CustomEvent::NoEvent
                }
            },
        }
    }

    /// Applies one unstacked event.
    fn unstack(&mut self, stacked: Stacked) -> (ce: CustomEvent<T>)
        ensures
            ({
                let (e2, c2) = s_unstack(old(self).layers_seq(), old(self).eng(), stacked);
                final(self).eng() == e2 && ce == c2
            }),
            final(self).layers_seq() == old(self).layers_seq(),
    {
        match stacked.event {
            Event::Release(i, j) => release_states(&mut self.states, (i, j)),
            Event::Press(i, j) => {
                let cl = self.current_layer();
                let action = self.press_as_action((i, j), cl);
                self.do_action(&action, (i, j), stacked.since)
            },
        }
    }

    /// A time event.
    ///
    /// This method must be called regularly, typically every
    /// millisecond.
    ///
    /// Returns the corresponding `CustomEvent`, allowing to manage
    /// custom actions thanks to the `Action::Custom` variant.
    pub fn tick(&mut self) -> (ce: CustomEvent<T>)
        ensures
            ({
                let (e2, c2) = s_tick(old(self).layers_seq(), old(self).eng());
                final(self).eng() == e2 && ce == c2
            }),
            final(self).layers_seq() == old(self).layers_seq(),
    {
        stack_age(&mut self.stacked);
        self.tap_hold_tracker.timeout = if self.tap_hold_tracker.timeout == 0 {
            0
        } else {
            self.tap_hold_tracker.timeout - 1
        };
        proof {
            assert(self.eng().stacked =~= old(self).eng().stacked.map(
                |i: int, s: Stacked| s_age(s),
            ));
        }
        process_sequences(&mut self.states, &mut self.sequences);
        if self.waiting.is_some() {
            match &mut self.waiting {
                Some(w) => {
                    w.timeout = if w.timeout == 0 {
                        0
                    } else {
                        w.timeout - 1
                    };
                },
                None => (),
            }
            let dcs = self.waiting_decision();
            match dcs {
                Some(WaitingAction::Hold) => self.waiting_into_hold(),
                Some(WaitingAction::Tap) => self.waiting_into_tap(),
                Some(WaitingAction::NoOp) => self.drop_waiting(),
                None => CustomEvent::NoEvent,
            }
        } else {
            match stack_pop_front(&mut self.stacked) {
                Some(t) => {
                    let s = stk_of_exec(t);
                    proof {
                        assert(self.eng().stacked =~= stack_seq(old(self).stacked).map(
                            |i: int, t2: (bool, u8, u8, u16)| stk_of(t2),
                        ).map(|i: int, s2: Stacked| s_age(s2)).drop_first());
                    }
                    self.unstack(s)
                },
                None => CustomEvent::NoEvent,
            }
        }
    }

    /// Register a key event.
    pub fn event(&mut self, event: Event)
        ensures
            final(self).eng() == s_event(old(self).layers_seq(), old(self).eng(), event),
            final(self).layers_seq() == old(self).layers_seq(),
    {
        let t = tup_of_exec(Stacked { event, since: 0 });
        let displaced = stack_push_back(&mut self.stacked, t);
        match displaced {
            Some(dt) => {
                let s = stk_of_exec(dt);
                proof {
                    assert(self.eng().stacked =~= old(self).eng().stacked.drop_first().push(
                        Stacked { event, since: 0 },
                    ));
                }
                let _ = self.waiting_into_hold();
                let _ = self.unstack(s);
            },
            None => {
                proof {
                    assert(self.eng().stacked =~= old(self).eng().stacked.push(
                        Stacked { event, since: 0 },
                    ));
                }
            },
        }
    }
}

/// A release clears its coordinate: after a release of `c` is applied,
/// no surviving state is owned by `c`; releasing `c` again removes
/// nothing and surfaces no custom pulse.
pub proof fn lemma_release_clears_coord<T: Copy>(ss: Seq<State<T>>, c: (u8, u8))
    ensures
        forall|k: int|
            0 <= k < s_release_states(ss, c).len() ==> !(#[trigger] s_release_states(ss, c)[k]).spec_released_by(c),
        s_release_states(s_release_states(ss, c), c) == s_release_states(ss, c),
        s_release_custom(s_release_states(ss, c), c) == CustomEvent::<T>::NoEvent,
    decreases ss.len(),
{
    if ss.len() == 0 {
        assert(s_release_states(s_release_states(ss, c), c) =~= s_release_states(ss, c));
    } else {
        lemma_release_clears_coord(ss.drop_last(), c);
        let pre = s_release_states(ss.drop_last(), c);
        if ss.last().spec_released_by(c) {
            assert(s_release_states(ss, c) =~= pre);
        } else {
            assert(s_release_states(ss, c) =~= pre.push(ss.last()));
            let r = s_release_states(ss, c);
            assert(r.drop_last() =~= pre);
            assert(s_release_states(r, c) =~= s_release_states(pre, c).push(ss.last()));
            assert(s_release_pulse(ss.last(), c) == CustomEvent::<T>::NoEvent);
        }
    }
}

/// The current layer is the default layer or the value of some held
/// layer modifier.
pub proof fn lemma_current_layer_held<T: Copy>(ss: Seq<State<T>>, default: usize)
    ensures
        s_current_layer(ss, default) == default || exists|k: int|
            0 <= k < ss.len() && (#[trigger] ss[k]).spec_layer() == Some(
                s_current_layer(ss, default),
            ),
    decreases ss.len(),
{
    if ss.len() > 0 {
        if ss.last().spec_layer() is Some {
            assert(ss[ss.len() - 1].spec_layer() == Some(s_current_layer(ss, default)));
        } else {
            lemma_current_layer_held(ss.drop_last(), default);
            if s_current_layer(ss, default) != default {
                let k = choose|k: int|
                    0 <= k < ss.drop_last().len() && (#[trigger] ss.drop_last()[k]).spec_layer()
                        == Some(s_current_layer(ss.drop_last(), default));
                assert(ss[k].spec_layer() == Some(s_current_layer(ss, default)));
            }
        }
    }
}

/// The key-code sets of a whole run: for each tick, the events that
/// arrive before it are registered, the engine ticks, and the asserted
/// key codes are recorded.
pub open spec fn s_run<T: Copy>(
    layers: Seq<Vec<Vec<Action<T>>>>,
    e: Eng<T>,
    trace: Seq<Seq<Event>>,
) -> Seq<Seq<KeyCode>>
    decreases trace.len(),
{
    if trace.len() == 0 {
        Seq::empty()
    } else {
        let e1 = s_events_in(layers, e, trace[0], 0);
        let (e2, _) = s_tick(layers, e1);
        seq![s_keycodes(e2.states)] + s_run(layers, e2, trace.drop_first())
    }
}

/// The engine after registering each event of one tick's batch, from
/// index `j` on.
pub open spec fn s_events_in<T: Copy>(
    layers: Seq<Vec<Vec<Action<T>>>>,
    e: Eng<T>,
    evs: Seq<Event>,
    j: int,
) -> Eng<T>
    decreases evs.len() - j,
{
    if j < 0 || j >= evs.len() {
        e
    } else {
        s_events_in(layers, s_event(layers, e, evs[j]), evs, j + 1)
    }
}

/// Hold/tap determinism: the sequence of key-code sets a run produces
/// is a function of the action table, the starting engine state and
/// the timed event trace alone. The substance lies in the contracts of
/// `tick` and `event`, which pin each step to exactly `s_tick` and
/// `s_event` of the prior state; this records the consequence for a
/// whole trace: two engines in the same state fed the same trace
/// produce the same key-code sets.
pub proof fn lemma_run_deterministic<T: Copy>(
    layers: Seq<Vec<Vec<Action<T>>>>,
    e1: Eng<T>,
    e2: Eng<T>,
    trace: Seq<Seq<Event>>,
)
    requires
        e1 == e2,
    ensures
        s_run(layers, e1, trace) == s_run(layers, e2, trace),
{
}

} // verus!
