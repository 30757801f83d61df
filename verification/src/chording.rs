//! Provides chord support for emulating a single layout event
//! from multiple key presses. The single event press is triggered
//! once all the keys of the chord have been pressed and the chord
//! is released once all of the keys of the chord have been released.
//!
//! The chording tick should be used after debouncing, where
//! the debounce period determines the period in which all keys
//! need to be pressed to trigger the chord.
//!
//! You must use a virtual row/area of your layout to
//! define the result of the chord if the desired result is
//! not already on the layer that you want to use the chord on.

use vstd::prelude::*;
use crate::layout::Event;

verus! {

/// A key position in the layout.
pub type KeyPosition = (u8, u8);

/// Description of the virtual key corresponding to a given chord.
/// The first element is the position of the resulting key, the second
/// the positions of the multiple keys that make up the chord.
pub type ChordDef = ((u8, u8), Vec<KeyPosition>);

/// The per-chord pressed flags, one per chord key, in heapless's
/// bounded vector.
#[verifier::external_body]
pub struct FlagVec {
    flags: heapless::Vec<bool, 8>,
}

/// What the flag vector holds.
pub uninterp spec fn flags_seq(v: FlagVec) -> Seq<bool>;

/// Relies on heapless's Vec::new: the new vector is empty.
#[verifier::external_body]
fn flags_new() -> (r: FlagVec)
    ensures
        flags_seq(r) == Seq::<bool>::empty(),
{
    FlagVec { flags: heapless::Vec::new() }
}

/// Relies on heapless's Vec::push: appends below the capacity of 8,
/// else hands the element back.
#[verifier::external_body]
fn flags_push(v: &mut FlagVec, b: bool) -> (r: Result<(), bool>)
    ensures
        r is Ok <==> flags_seq(*old(v)).len() < 8,
        flags_seq(*old(v)).len() < 8 ==> flags_seq(*final(v)) == flags_seq(*old(v)).push(b),
        flags_seq(*old(v)).len() >= 8 ==> flags_seq(*final(v)) == flags_seq(*old(v)),
{
    v.flags.push(b)
}

/// Relies on heapless's Vec::len.
#[verifier::external_body]
fn flags_len(v: &FlagVec) -> (r: usize)
    ensures
        r == flags_seq(*v).len(),
{
    v.flags.len()
}

/// Relies on indexing through heapless's Vec.
#[verifier::external_body]
fn flags_get(v: &FlagVec, i: usize) -> (r: bool)
    requires
        i < flags_seq(*v).len(),
    ensures
        r == flags_seq(*v)[i as int],
{
    v.flags[i]
}

/// Relies on mutable indexing through heapless's Vec.
#[verifier::external_body]
fn flags_set(v: &mut FlagVec, i: usize, b: bool)
    requires
        i < flags_seq(*old(v)).len(),
    ensures
        flags_seq(*final(v)) == flags_seq(*old(v)).update(i as int, b),
{
    v.flags[i] = b;
}

/// One chord's bookkeeping as one mathematical value.
#[verifier::ext_equal]
pub ghost struct ChordSt {
    /// The position of the resulting virtual key.
    pub result: (u8, u8),
    /// The positions that make up the chord.
    pub keys: Seq<(u8, u8)>,
    /// Whether the chord has fired and is not yet fully released.
    pub in_progress: bool,
    /// Which of the chord's keys are currently believed pressed.
    pub flags: Seq<bool>,
}

impl ChordSt {
    /// One flag per chord key.
    pub open spec fn wf(self) -> bool {
        self.flags.len() == self.keys.len()
    }
}

/// The flags with every flag of a key at `coord` set to `val`.
pub open spec fn s_mark(flags: Seq<bool>, keys: Seq<(u8, u8)>, coord: (u8, u8), val: bool) -> Seq<
    bool,
> {
    Seq::new(
        flags.len(),
        |k: int|
            if k < keys.len() && keys[k] == coord {
                val
            } else {
                flags[k]
            },
    )
}

/// Whether every flag is set.
pub open spec fn s_all(flags: Seq<bool>) -> bool {
    forall|k: int| 0 <= k < flags.len() ==> flags[k]
}

/// Whether no flag is set.
pub open spec fn s_none(flags: Seq<bool>) -> bool {
    forall|k: int| 0 <= k < flags.len() ==> !flags[k]
}

/// One chord confronted with one event: a press of one of its keys
/// marks that key, and the chord fires once all keys are marked; a
/// release unmarks, and the fired chord releases once all keys are
/// unmarked.
pub open spec fn s_chord_process(c: ChordSt, e: Event) -> (ChordSt, Option<Event>) {
    match e {
        Event::Press(_, _) => {
            if c.in_progress {
                (c, None)
            } else {
                let flags2 = s_mark(c.flags, c.keys, e.spec_coord(), true);
                if s_all(flags2) {
                    (
                        ChordSt { in_progress: true, flags: flags2, ..c },
                        Some(Event::Press(c.result.0, c.result.1)),
                    )
                } else {
                    (ChordSt { flags: flags2, ..c }, None)
                }
            }
        },
        Event::Release(_, _) => {
            let flags2 = s_mark(c.flags, c.keys, e.spec_coord(), false);
            if c.in_progress && s_none(flags2) {
                (
                    ChordSt { in_progress: false, flags: flags2, ..c },
                    Some(Event::Release(c.result.0, c.result.1)),
                )
            } else {
                (ChordSt { flags: flags2, ..c }, None)
            }
        },
    }
}

/// The removal marks for a fired chord: the events of its own keys.
pub open spec fn s_mark_events(keys: Seq<(u8, u8)>, press: bool) -> Seq<Event> {
    keys.map(
        |i: int, k: (u8, u8)|
            if press {
                Event::Press(k.0, k.1)
            } else {
                Event::Release(k.0, k.1)
            },
    )
}

/// One event confronted with each chord in turn: the first chord that
/// fires translates the event to its own virtual key and marks the
/// events of its keys for removal; the chords walked before it still
/// update their flags, those after it are untouched.
pub open spec fn s_chords_process(cs: Seq<ChordSt>, e: Event) -> (Seq<ChordSt>, Event, Seq<Event>)
    decreases cs.len(),
{
    if cs.len() == 0 {
        (cs, e, Seq::empty())
    } else {
        let (c1, o) = s_chord_process(cs[0], e);
        match o {
            Some(e2) => (seq![c1] + cs.drop_first(), e2, s_mark_events(cs[0].keys, e2 is Press)),
            None => {
                let (rest, e3, rem) = s_chords_process(cs.drop_first(), e);
                (seq![c1] + rest, e3, rem)
            },
        }
    }
}

/// All events of one tick confronted with the chords: the translated
/// events in order, and the accumulated removal marks.
pub open spec fn s_chording_scan(cs: Seq<ChordSt>, evs: Seq<Event>) -> (
    Seq<ChordSt>,
    Seq<Event>,
    Seq<Event>,
)
    decreases evs.len(),
{
    if evs.len() == 0 {
        (cs, Seq::empty(), Seq::empty())
    } else {
        let (cs1, e1, rem1) = s_chords_process(cs, evs[0]);
        let (cs2, tr, rem) = s_chording_scan(cs1, evs.drop_first());
        (cs2, seq![e1] + tr, rem1 + rem)
    }
}

/// The translated events with every marked one removed, order kept.
pub open spec fn s_filter_removed(evs: Seq<Event>, removes: Seq<Event>) -> Seq<Event>
    decreases evs.len(),
{
    if evs.len() == 0 {
        Seq::empty()
    } else {
        s_filter_removed(evs.drop_last(), removes) + if removes.contains(evs.last()) {
            Seq::empty()
        } else {
            seq![evs.last()]
        }
    }
}

/// The chords and the pass-through events after one tick.
pub open spec fn s_chording_tick(cs: Seq<ChordSt>, evs: Seq<Event>) -> (Seq<ChordSt>, Seq<Event>) {
    let (cs2, tr, rem) = s_chording_scan(cs, evs);
    (cs2, s_filter_removed(tr, rem))
}

/// Whether every chord's bookkeeping is well formed.
pub open spec fn wf_all(cs: Seq<ChordSt>) -> bool {
    forall|k: int| 0 <= k < cs.len() ==> (#[trigger] cs[k]).wf()
}

/// Runtime data for a chord.
pub struct Chord {
    def: ChordDef,
    in_progress: bool,
    keys_pressed: FlagVec,
}

impl Chord {
    /// The chord's bookkeeping as one mathematical value.
    pub closed spec fn st(&self) -> ChordSt {
        ChordSt {
            result: self.def.0,
            keys: self.def.1@,
            in_progress: self.in_progress,
            flags: flags_seq(self.keys_pressed),
        }
    }

    /// Create new chord from user data.
    pub fn new(def: ChordDef) -> (r: Self)
        requires
            def.1@.len() <= 8,
        ensures
            r.st() == (ChordSt {
                result: def.0,
                keys: def.1@,
                in_progress: false,
                flags: Seq::new(def.1@.len(), |k: int| false),
            }),
            r.st().wf(),
    {
        let mut me = Self { def, in_progress: false, keys_pressed: flags_new() };
        let n = me.def.1.len();
        let mut i: usize = 0;
        while i < n
            invariant
                i <= n,
                n == me.def.1@.len() <= 8,
                me.def == def,
                me.in_progress == false,
                flags_seq(me.keys_pressed) == Seq::new(i as nat, |k: int| false),
            decreases n - i,
        {
            let res = flags_push(&mut me.keys_pressed, false);
            proof {
                assert(flags_seq(me.keys_pressed) =~= Seq::new((i + 1) as nat, |k: int| false));
            }
            i += 1;
        }
        proof {
            assert(me.st().flags =~= Seq::new(me.def.1@.len(), |k: int| false));
        }
        me
    }

    /// Marks every flag of a chord key at `coord` with `val`.
    fn mark(&mut self, coord: (u8, u8), val: bool)
        requires
            old(self).st().wf(),
        ensures
            final(self).st() == (ChordSt {
                flags: s_mark(old(self).st().flags, old(self).st().keys, coord, val),
                ..old(self).st()
            }),
            final(self).st().wf(),
    {
        let n = flags_len(&self.keys_pressed);
        let mut k: usize = 0;
        while k < n
            invariant
                k <= n,
                n == self.def.1@.len(),
                self.st().wf(),
                self.def == old(self).def,
                self.in_progress == old(self).in_progress,
                flags_seq(self.keys_pressed) == Seq::new(
                    old(self).st().flags.len(),
                    |t: int|
                        if t < k && old(self).st().keys[t] == coord {
                            val
                        } else {
                            old(self).st().flags[t]
                        },
                ),
            decreases n - k,
        {
            let key = self.def.1[k];
            if key.0 == coord.0 && key.1 == coord.1 {
                flags_set(&mut self.keys_pressed, k, val);
            }
            proof {
                assert(flags_seq(self.keys_pressed) =~= Seq::new(
                    old(self).st().flags.len(),
                    |t: int|
                        if t < k + 1 && old(self).st().keys[t] == coord {
                            val
                        } else {
                            old(self).st().flags[t]
                        },
                ));
            }
            k += 1;
        }
        proof {
            assert(flags_seq(self.keys_pressed) =~= s_mark(
                old(self).st().flags,
                old(self).st().keys,
                coord,
                val,
            ));
        }
    }

    /// Whether every flag equals `val`.
    fn all_flags(&self, val: bool) -> (r: bool)
        ensures
            r == if val {
                s_all(self.st().flags)
            } else {
                s_none(self.st().flags)
            },
    {
        let n = flags_len(&self.keys_pressed);
        let mut k: usize = 0;
        while k < n
            invariant
                k <= n,
                n == flags_seq(self.keys_pressed).len(),
                forall|t: int| 0 <= t < k ==> flags_seq(self.keys_pressed)[t] == val,
            decreases n - k,
        {
            if flags_get(&self.keys_pressed, k) != val {
                return false;
            }
            k += 1;
        }
        true
    }

    fn process(&mut self, event: Event) -> (r: Option<Event>)
        requires
            old(self).st().wf(),
        ensures
            final(self).st() == s_chord_process(old(self).st(), event).0,
            r == s_chord_process(old(self).st(), event).1,
            final(self).st().wf(),
    {
        match event {
            Event::Press(_, _) => {
                if self.in_progress {
                    return None;
                }
                self.mark(event.coord(), true);
                if self.all_flags(true) {
                    self.in_progress = true;
                    Some(Event::Press(self.def.0.0, self.def.0.1))
                } else {
                    None
                }
            },
            Event::Release(_, _) => {
                self.mark(event.coord(), false);
                if self.in_progress && self.all_flags(false) {
                    self.in_progress = false;
                    Some(Event::Release(self.def.0.0, self.def.0.1))
                } else {
                    None
                }
            },
        }
    }
}

/// The bookkeeping of each chord, in order.
pub open spec fn sts(cs: Seq<Chord>) -> Seq<ChordSt> {
    cs.map(|i: int, c: Chord| c.st())
}

/// Whether the given events hold `e`.
fn vec_contains(v: &Vec<Event>, e: Event) -> (r: bool)
    ensures
        r == v@.contains(e),
{
    let mut i: usize = 0;
    while i < v.len()
        invariant
            i <= v@.len(),
            forall|k: int| 0 <= k < i ==> v@[k] != e,
        decreases v@.len() - i,
    {
        if v[i] == e {
            return true;
        }
        i += 1;
    }
    proof {
        assert(!v@.contains(e));
    }
    false
}

/// Confronts one event with each chord in turn, returning the
/// translated event and the removal marks of a fired chord.
fn chords_scan(chords: &mut Vec<Chord>, ev: Event) -> (r: (Event, Vec<Event>))
    requires
        wf_all(sts(old(chords)@)),
    ensures
        ({
            let (cs2, e2, rem) = s_chords_process(sts(old(chords)@), ev);
            sts(final(chords)@) == cs2 && r.0 == e2 && r.1@ == rem
        }),
        wf_all(sts(final(chords)@)),
{
    let n = chords.len();
    let ghost cs0 = sts(chords@);
    let mut ci: usize = 0;
    proof {
        assert(sts(chords@).skip(0) =~= sts(chords@));
        assert(sts(chords@).take(0) + s_chords_process(sts(chords@), ev).0 =~= s_chords_process(
            sts(chords@),
            ev,
        ).0);
    }
    while ci < n
        invariant
            ci <= n,
            n == chords@.len(),
            cs0 == sts(old(chords)@),
            wf_all(sts(chords@)),
            ({
                let full = s_chords_process(cs0, ev);
                let part = s_chords_process(sts(chords@).skip(ci as int), ev);
                full.0 == sts(chords@).take(ci as int) + part.0 && full.1 == part.1 && full.2
                    == part.2
            }),
        decreases n - ci,
    {
        let ghost pre = sts(chords@);
        proof {
            assert(pre.skip(ci as int)[0] == pre[ci as int]);
            assert(pre.skip(ci as int).drop_first() =~= pre.skip(ci + 1 as int));
        }
        let c = &mut chords[ci];
        let res = c.process(ev);
        proof {
            assert(sts(chords@) =~= pre.update(
                ci as int,
                s_chord_process(pre[ci as int], ev).0,
            ));
            assert(sts(chords@).skip(ci + 1 as int) =~= pre.skip(ci + 1 as int));
            assert(sts(chords@).take(ci as int) =~= pre.take(ci as int));
        }
        match res {
            Some(e2) => {
                // This chord fired: mark the events of its own keys
                // for removal from the pass-through stream.
                let press = e2.is_press();
                let mut marks: Vec<Event> = Vec::new();
                let keys = &chords[ci].def.1;
                let mut k: usize = 0;
                while k < keys.len()
                    invariant
                        k <= keys@.len(),
                        marks@ == s_mark_events(keys@, press).take(k as int),
                    decreases keys@.len() - k,
                {
                    let pos = keys[k];
                    if press {
                        marks.push(Event::Press(pos.0, pos.1));
                    } else {
                        marks.push(Event::Release(pos.0, pos.1));
                    }
                    proof {
                        assert(marks@ =~= s_mark_events(keys@, press).take(k + 1 as int));
                    }
                    k += 1;
                }
                proof {
                    assert(s_mark_events(keys@, press).take(keys@.len() as int) =~= s_mark_events(
                        keys@,
                        press,
                    ));
                    assert(sts(chords@).take(ci as int) + (seq![
                        s_chord_process(pre[ci as int], ev).0,
                    ] + pre.skip(ci + 1 as int)) =~= sts(chords@));
                    let full = s_chords_process(cs0, ev);
                    assert(e2 == full.1);
                    assert(marks@ == full.2);
                    assert(sts(chords@) == full.0);
                    assert(wf_all(sts(chords@)));
                }
                return (e2, marks);
            },
            None => (),
        }
        proof {
            assert(sts(chords@).take(ci + 1 as int) =~= sts(chords@).take(ci as int) + seq![
                s_chord_process(pre[ci as int], ev).0,
            ]);
        }
        ci += 1;
    }
    proof {
        assert(sts(chords@).skip(n as int) =~= Seq::<ChordSt>::empty());
        assert(sts(chords@).take(n as int) =~= sts(chords@));
    }
    (ev, Vec::new())
}

/// Whether a chord's bookkeeping is the fresh state for its
/// definition: nothing pressed, nothing in progress.
pub open spec fn s_chord_init(c: ChordSt, d: ChordDef) -> bool {
    c.result == d.0 && c.keys == d.1@ && !c.in_progress && c.flags == Seq::new(
        d.1@.len(),
        |k: int| false,
    )
}

/// Two keys at once!
pub struct Chording {
    /// Defined chords
    chords: Vec<Chord>,
}

impl Chording {
    /// The bookkeeping of each chord, in order.
    pub closed spec fn chord_sts(&self) -> Seq<ChordSt> {
        sts(self.chords@)
    }

    /// Take the predefined chord list in.
    pub fn new(chords: Vec<ChordDef>) -> (r: Self)
        requires
            chords@.len() <= 16,
            forall|k: int| 0 <= k < chords@.len() ==> (#[trigger] chords@[k]).1@.len() <= 8,
        ensures
            r.chord_sts().len() == chords@.len(),
            forall|i: int| 0 <= i < chords@.len() ==> s_chord_init(
                #[trigger] r.chord_sts()[i],
                chords@[i],
            ),
            wf_all(r.chord_sts()),
    {
        let mut v: Vec<Chord> = Vec::new();
        let mut i: usize = 0;
        while i < chords.len()
            invariant
                i <= chords@.len(),
                chords@.len() <= 16,
                forall|k: int| 0 <= k < chords@.len() ==> (#[trigger] chords@[k]).1@.len() <= 8,
                sts(v@).len() == i,
                forall|t: int| 0 <= t < i ==> s_chord_init(#[trigger] sts(v@)[t], chords@[t]),
                wf_all(sts(v@)),
            decreases chords@.len() - i,
        {
            let d = &chords[i];
            let mut keys: Vec<KeyPosition> = Vec::new();
            let mut k: usize = 0;
            while k < d.1.len()
                invariant
                    k <= d.1@.len(),
                    d == &chords@[i as int],
                    keys@ == d.1@.take(k as int),
                decreases d.1@.len() - k,
            {
                keys.push(d.1[k]);
                proof {
                    assert(keys@ =~= d.1@.take(k + 1 as int));
                }
                k += 1;
            }
            proof {
                assert(keys@ =~= d.1@);
            }
            let ghost prev = sts(v@);
            let ch = Chord::new((d.0, keys));
            v.push(ch);
            proof {
                assert(sts(v@) =~= prev.push(ch.st()));
                assert(ch.st().flags =~= Seq::new(chords@[i as int].1@.len(), |k: int| false));
                assert(s_chord_init(ch.st(), chords@[i as int]));
            }
            i += 1;
        }
        Self { chords: v }
    }

    /// Consolidate events and return the processed result: fired
    /// chords replace the presses and releases of their own keys by
    /// those of their virtual key; everything else passes through in
    /// order.
    pub fn tick(&mut self, vec: Vec<Event>) -> (r: Vec<Event>)
        requires
            wf_all(old(self).chord_sts()),
        ensures
            final(self).chord_sts() == s_chording_tick(old(self).chord_sts(), vec@).0,
            r@ == s_chording_tick(old(self).chord_sts(), vec@).1,
            wf_all(final(self).chord_sts()),
    {
        let ghost cs0 = self.chord_sts();
        let mut vec_remove: Vec<Event> = Vec::new();
        let mut events: Vec<Event> = Vec::new();
        let mut i: usize = 0;
        proof {
            assert(vec@.skip(0) =~= vec@);
            assert(Seq::<Event>::empty() + s_chording_scan(cs0, vec@).1 =~= s_chording_scan(
                cs0,
                vec@,
            ).1);
            assert(Seq::<Event>::empty() + s_chording_scan(cs0, vec@).2 =~= s_chording_scan(
                cs0,
                vec@,
            ).2);
        }
        while i < vec.len()
            invariant
                i <= vec@.len(),
                wf_all(sts(self.chords@)),
                ({
                    let full = s_chording_scan(cs0, vec@);
                    let part = s_chording_scan(sts(self.chords@), vec@.skip(i as int));
                    full.0 == part.0 && full.1 == events@ + part.1 && full.2 == vec_remove@
                        + part.2
                }),
            decreases vec@.len() - i,
        {
            proof {
                assert(vec@.skip(i as int)[0] == vec@[i as int]);
                assert(vec@.skip(i as int).drop_first() =~= vec@.skip(i + 1 as int));
            }
            let ev = vec[i];
            let ghost pre = sts(self.chords@);
            let (tr, mut marks) = chords_scan(&mut self.chords, ev);
            events.push(tr);
            let ghost old_remove = vec_remove@;
            vec_remove.append(&mut marks);
            proof {
                let full = s_chording_scan(cs0, vec@);
                let part_pre = s_chording_scan(pre, vec@.skip(i as int));
                let (cs1, e1, rem1) = s_chords_process(pre, vec@[i as int]);
                assert(events@.drop_last() + (seq![e1] + s_chording_scan(
                    cs1,
                    vec@.skip(i + 1 as int),
                ).1) =~= events@ + s_chording_scan(cs1, vec@.skip(i + 1 as int)).1);
                assert(old_remove + (rem1 + s_chording_scan(cs1, vec@.skip(i + 1 as int)).2)
                    =~= (old_remove + rem1) + s_chording_scan(cs1, vec@.skip(i + 1 as int)).2);
            }
            i += 1;
        }
        proof {
            assert(vec@.skip(vec@.len() as int) =~= Seq::<Event>::empty());
            assert(events@ + Seq::<Event>::empty() =~= events@);
            assert(vec_remove@ + Seq::<Event>::empty() =~= vec_remove@);
        }
        let mut r: Vec<Event> = Vec::new();
        let mut j: usize = 0;
        while j < events.len()
            invariant
                j <= events@.len(),
                r@ == s_filter_removed(events@.take(j as int), vec_remove@),
            decreases events@.len() - j,
        {
            proof {
                assert(events@.take(j + 1 as int).drop_last() =~= events@.take(j as int));
                assert(events@.take(j + 1 as int).last() == events@[j as int]);
            }
            let ev = events[j];
            if !vec_contains(&vec_remove, ev) {
                r.push(ev);
            }
            j += 1;
        }
        proof {
            assert(events@.take(events@.len() as int) =~= events@);
        }
        r
    }
}

} // verus!
