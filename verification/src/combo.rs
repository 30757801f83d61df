//! Provides combo support for two keys pressed at once.
//! E.g. Left + Right arrow at the same time => paste.
//!
//! The in-flight combos live in a bounded ring of 16 entries; the
//! oldest entry leaves when a new one arrives with the ring full. The
//! per-tick scratch buffers are unbounded.

use vstd::prelude::*;
use crate::layout::Event;

verus! {

/// KeyA + KeyB = KeyC.
/// (For custom actions KeyC could be a virtual key off to the side and
/// then mapped to actions via layers.)
pub type Combination = ((u8, u8), (u8, u8), (u8, u8));

/// One in-flight combo: its definition and whether its first and
/// second keys are still depressed.
pub type ComboEntry = (Combination, bool, bool);

/// Whether the event is a press of one of the combo's two keys.
pub open spec fn s_press_matches(c: Combination, e: Event) -> bool {
    e is Press && (e.spec_coord() == c.0 || e.spec_coord() == c.1)
}

/// One combo scanned over the events from index `j` on, with `ci` the
/// index of the last matching press already seen: every further
/// matching press pairs with it, marking both indices for removal,
/// emitting the combo's virtual press and stacking the combo.
pub open spec fn s_scan_combo(c: Combination, evs: Seq<Event>, j: int, ci: Option<usize>) -> (
    Seq<usize>,
    Seq<Event>,
    Seq<ComboEntry>,
)
    decreases evs.len() - j,
{
    if j < 0 || j >= evs.len() {
        (Seq::empty(), Seq::empty(), Seq::empty())
    } else {
        if s_press_matches(c, evs[j]) {
            match ci {
                Some(fi) => {
                    let (r, a, p) = s_scan_combo(c, evs, j + 1, Some(j as usize));
                    (
                        seq![fi, j as usize] + r,
                        seq![Event::Press(c.2.0, c.2.1)] + a,
                        seq![(c, true, true)] + p,
                    )
                },
                None => s_scan_combo(c, evs, j + 1, Some(j as usize)),
            }
        } else {
            s_scan_combo(c, evs, j + 1, ci)
        }
    }
}

/// Every combo scanned in turn over the whole event batch, from combo
/// index `k` on.
pub open spec fn s_phase1(combos: Seq<Combination>, evs: Seq<Event>, k: int) -> (
    Seq<usize>,
    Seq<Event>,
    Seq<ComboEntry>,
)
    decreases combos.len() - k,
{
    if k < 0 || k >= combos.len() {
        (Seq::empty(), Seq::empty(), Seq::empty())
    } else {
        let (r1, a1, p1) = s_scan_combo(combos[k], evs, 0, None);
        let (r2, a2, p2) = s_phase1(combos, evs, k + 1);
        (r1 + r2, a1 + a2, p1 + p2)
    }
}

/// The ring with one more entry; a full ring drops its oldest one.
pub open spec fn s_push_wrap16(st: Seq<ComboEntry>, e: ComboEntry) -> Seq<ComboEntry> {
    if st.len() < 16 {
        st.push(e)
    } else {
        st.drop_first().push(e)
    }
}

/// The ring after stacking each entry in turn.
pub open spec fn s_push_all(st: Seq<ComboEntry>, ps: Seq<ComboEntry>) -> Seq<ComboEntry>
    decreases ps.len(),
{
    if ps.len() == 0 {
        st
    } else {
        s_push_all(s_push_wrap16(st, ps[0]), ps.drop_first())
    }
}

/// The largest of the marked indices.
pub open spec fn s_seq_max(s: Seq<usize>) -> usize
    decreases s.len(),
{
    if s.len() <= 1 {
        s[0]
    } else {
        let m = s_seq_max(s.drop_first());
        if s[0] >= m {
            s[0]
        } else {
            m
        }
    }
}

proof fn lemma_seq_max_in(s: Seq<usize>)
    requires
        s.len() > 0,
    ensures
        s.contains(s_seq_max(s)),
        forall|k: int| 0 <= k < s.len() ==> s[k] <= s_seq_max(s),
    decreases s.len(),
{
    if s.len() == 1 {
        assert(s.contains(s[0])) by {
            assert(s[0] == s[0]);
        }
    } else {
        lemma_seq_max_in(s.drop_first());
        let m = s_seq_max(s.drop_first());
        assert(s.drop_first().contains(m));
        let w = choose|w: int| 0 <= w < s.drop_first().len() && s.drop_first()[w] == m;
        assert(s[w + 1] == m);
        assert(forall|k: int| 1 <= k < s.len() ==> s[k] == s.drop_first()[k - 1]);
        if s[0] >= m {
            assert(s.contains(s[0])) by {
                assert(s[0] == s[0]);
            }
        } else {
            assert(s.contains(m)) by {
                assert(s[w + 1] == m);
            }
        }
    }
}

proof fn lemma_filter_out_shrinks(s: Seq<usize>, m: usize)
    requires
        s.contains(m),
    ensures
        s.filter(|x: usize| x != m).len() < s.len(),
    decreases s.len(),
{
    reveal(Seq::filter);
    if s.len() > 0 {
        if s.last() == m {
            assert(s.filter(|x: usize| x != m) == s.drop_last().filter(|x: usize| x != m));
            seq_filter_len_le(s.drop_last(), m);
        } else {
            let w = choose|w: int| 0 <= w < s.len() && s[w] == m;
            assert(s.drop_last()[w] == m);
            assert(s.drop_last().contains(m));
            lemma_filter_out_shrinks(s.drop_last(), m);
        }
    }
}

proof fn seq_filter_len_le(s: Seq<usize>, m: usize)
    ensures
        s.filter(|x: usize| x != m).len() <= s.len(),
    decreases s.len(),
{
    reveal(Seq::filter);
    if s.len() > 0 {
        seq_filter_len_le(s.drop_last(), m);
    }
}

/// The events with every marked index removed: the largest marked
/// index is swap-removed (the last event takes its place) until no
/// mark is left.
pub open spec fn s_remove_loop(v: Seq<Event>, rm: Seq<usize>) -> Seq<Event>
    decreases rm.len(),
    via s_remove_loop_decreases
{
    if rm.len() == 0 {
        v
    } else {
        let m = s_seq_max(rm);
        s_remove_loop(v.update(m as int, v.last()).drop_last(), rm.filter(|x: usize| x != m))
    }
}

#[via_fn]
proof fn s_remove_loop_decreases(v: Seq<Event>, rm: Seq<usize>) {
    if rm.len() > 0 {
        lemma_seq_max_in(rm);
        lemma_filter_out_shrinks(rm, s_seq_max(rm));
    }
}

/// One in-flight combo confronted with one event: a release of one of
/// its still-depressed keys clears that key; a fully released combo
/// emits the release of its virtual key and marks itself finished.
pub open spec fn s_entry_release(en: ComboEntry, e: Event) -> (ComboEntry, bool) {
    match e {
        Event::Release(i, j) => {
            let c = en.0;
            if en.1 && c.0 == (i, j) {
                ((c, false, en.2), true)
            } else if en.2 && c.1 == (i, j) {
                ((c, en.1, false), true)
            } else {
                (en, false)
            }
        },
        _ => (en, false),
    }
}

/// One event confronted with the in-flight combos from index `ci` on:
/// the updated combos, whether any of them consumed the event, the
/// virtual releases emitted, and the indices of finished combos.
pub open spec fn s_entries_release(st: Seq<ComboEntry>, e: Event, ci: int) -> (
    Seq<ComboEntry>,
    bool,
    Seq<Event>,
    Seq<usize>,
)
    decreases st.len() - ci,
{
    if ci < 0 || ci >= st.len() {
        (st, false, Seq::empty(), Seq::empty())
    } else {
        let (en1, fired) = s_entry_release(st[ci], e);
        let finished = e is Release && !en1.1 && !en1.2;
        let (st2, fired2, outs2, rems2) = s_entries_release(st.update(ci, en1), e, ci + 1);
        (
            st2,
            fired || fired2,
            (if finished {
                seq![Event::Release(en1.0.2.0, en1.0.2.1)]
            } else {
                Seq::empty()
            }) + outs2,
            (if finished {
                seq![ci as usize]
            } else {
                Seq::empty()
            }) + rems2,
        )
    }
}

/// Every event confronted with the in-flight combos, from event index
/// `j` on: an event consumed by a combo leaves the stream, the rest
/// pass through after the virtual releases they triggered.
pub open spec fn s_phase4(st: Seq<ComboEntry>, evs: Seq<Event>, j: int) -> (
    Seq<ComboEntry>,
    Seq<Event>,
    Seq<usize>,
)
    decreases evs.len() - j,
{
    if j < 0 || j >= evs.len() {
        (st, Seq::empty(), Seq::empty())
    } else {
        let (st1, fired, outs1, rems1) = s_entries_release(st, evs[j], 0);
        let (st2, outs2, rems2) = s_phase4(st1, evs, j + 1);
        (
            st2,
            outs1 + (if fired {
                Seq::empty()
            } else {
                seq![evs[j]]
            }) + outs2,
            rems1 + rems2,
        )
    }
}

/// The entry at `f` removed, if the ring still has an entry there.
pub open spec fn s_remove_at(st: Seq<ComboEntry>, f: usize) -> Seq<ComboEntry> {
    if f < st.len() {
        st.remove(f as int)
    } else {
        st
    }
}

/// The finished combos removed, last collected index first.
pub open spec fn s_phase5(st: Seq<ComboEntry>, rems: Seq<usize>) -> Seq<ComboEntry>
    decreases rems.len(),
{
    if rems.len() == 0 {
        st
    } else {
        s_phase5(s_remove_at(st, rems.last()), rems.drop_last())
    }
}

/// One whole tick of the combo engine.
pub open spec fn s_combo_tick(combos: Seq<Combination>, st: Seq<ComboEntry>, evs: Seq<Event>) -> (
    Seq<ComboEntry>,
    Seq<Event>,
) {
    let (rem_idx, adds, pushes) = s_phase1(combos, evs, 0);
    let st1 = s_push_all(st, pushes);
    let vec1 = s_remove_loop(evs, rem_idx);
    let vec2 = vec1 + adds;
    let (st2, outs, crem) = s_phase4(st1, vec2, 0);
    (s_phase5(st2, crem), outs)
}

/// Two keys at once!
pub struct Combo {
    /// Possible combinations.
    combos: Vec<Combination>,
    /// The in-flight combos, oldest first, with whether their first
    /// and second keys are still depressed.
    stacked: Vec<ComboEntry>,
}

impl Combo {
    /// The configured combinations.
    pub closed spec fn spec_combos(&self) -> Seq<Combination> {
        self.combos@
    }

    /// The in-flight combos.
    pub closed spec fn spec_stacked(&self) -> Seq<ComboEntry> {
        self.stacked@
    }

    /// Take the predefined combo list in.
    pub fn new(combos: Vec<Combination>) -> (r: Self)
        ensures
            r.spec_combos() == combos@,
            r.spec_stacked() == Seq::<ComboEntry>::empty(),
    {
        Self { combos, stacked: Vec::new() }
    }

    /// Consolidate events and return processed results as a result.
    pub fn tick(&mut self, vec: Vec<Event>) -> (r: Vec<Event>)
        ensures
            final(self).spec_combos() == old(self).spec_combos(),
            final(self).spec_stacked() == s_combo_tick(
                old(self).spec_combos(),
                old(self).spec_stacked(),
                vec@,
            ).0,
            r@ == s_combo_tick(old(self).spec_combos(), old(self).spec_stacked(), vec@).1,
    {
        let ghost evs0 = vec@;
        let mut vec = vec;
        let mut rem_idx: Vec<usize> = Vec::new();
        let mut adds: Vec<Event> = Vec::new();
        let mut pushes: Vec<ComboEntry> = Vec::new();
        let nk = self.combos.len();
        let mut k: usize = 0;
        proof {
            let full = s_phase1(self.combos@, evs0, 0);
            assert(Seq::<usize>::empty() + full.0 =~= full.0);
            assert(Seq::<Event>::empty() + full.1 =~= full.1);
            assert(Seq::<ComboEntry>::empty() + full.2 =~= full.2);
        }
        while k < nk
            invariant
                k <= nk,
                nk == self.combos@.len(),
                self.combos@ == old(self).combos@,
                self.stacked@ == old(self).stacked@,
                vec@ == evs0,
                forall|t: int| 0 <= t < rem_idx@.len() ==> rem_idx@[t] < evs0.len(),
                ({
                    let full = s_phase1(self.combos@, evs0, 0);
                    let rest = s_phase1(self.combos@, evs0, k as int);
                    full.0 == rem_idx@ + rest.0 && full.1 == adds@ + rest.1 && full.2 == pushes@
                        + rest.2
                }),
            decreases nk - k,
        {
            let c = self.combos[k];
            let mut combo_index: Option<usize> = None;
            let mut j: usize = 0;
            proof {
                let full = s_phase1(self.combos@, evs0, 0);
                let scan = s_scan_combo(c, evs0, 0, None);
                let rest1 = s_phase1(self.combos@, evs0, k + 1 as int);
                assert(rem_idx@ + (scan.0 + rest1.0) =~= rem_idx@ + scan.0 + rest1.0);
                assert(adds@ + (scan.1 + rest1.1) =~= adds@ + scan.1 + rest1.1);
                assert(pushes@ + (scan.2 + rest1.2) =~= pushes@ + scan.2 + rest1.2);
            }
            while j < vec.len()
                invariant
                    j <= vec@.len(),
                    vec@ == evs0,
                    k < nk,
                    nk == self.combos@.len(),
                    self.combos@ == old(self).combos@,
                    self.stacked@ == old(self).stacked@,
                    c == self.combos@[k as int],
                    combo_index matches Some(u) ==> u < evs0.len(),
                    forall|t: int| 0 <= t < rem_idx@.len() ==> rem_idx@[t] < evs0.len(),
                    ({
                        let full = s_phase1(self.combos@, evs0, 0);
                        let scan = s_scan_combo(c, evs0, j as int, combo_index);
                        let rest1 = s_phase1(self.combos@, evs0, k + 1 as int);
                        full.0 == rem_idx@ + scan.0 + rest1.0 && full.1 == adds@ + scan.1 + rest1.1
                            && full.2 == pushes@ + scan.2 + rest1.2
                    }),
                decreases vec@.len() - j,
            {
                let e = vec[j];
                let matches_press = match e {
                    Event::Press(i2, j2) => (i2 == c.0.0 && j2 == c.0.1) || (i2 == c.1.0 && j2
                        == c.1.1),
                    _ => false,
                };
                proof {
                    assert(matches_press == s_press_matches(c, evs0[j as int]));
                }
                let ghost rem_pre = rem_idx@;
                let ghost adds_pre = adds@;
                let ghost pushes_pre = pushes@;
                let ghost ci_pre = combo_index;
                if matches_press {
                    match combo_index {
                        Some(fi) => {
                            rem_idx.push(fi);
                            rem_idx.push(j);
                            adds.push(Event::Press(c.2.0, c.2.1));
                            pushes.push((c, true, true));
                        },
                        None => (),
                    }
                    combo_index = Some(j);
                }
                proof {
                    let full = s_phase1(self.combos@, evs0, 0);
                    let rest1 = s_phase1(self.combos@, evs0, k + 1 as int);
                    let scan2 = s_scan_combo(c, evs0, j + 1 as int, combo_index);
                    if matches_press && ci_pre is Some {
                        let fi = ci_pre->0;
                        assert(rem_pre + (seq![fi, j] + scan2.0) =~= rem_pre + seq![fi, j]
                            + scan2.0);
                        assert(rem_idx@ =~= rem_pre + seq![fi, j]);
                        assert(adds_pre + (seq![Event::Press(c.2.0, c.2.1)] + scan2.1) =~= adds@
                            + scan2.1);
                        assert(pushes_pre + (seq![(c, true, true)] + scan2.2) =~= pushes@
                            + scan2.2);
                    }
                }
                j += 1;
            }
            proof {
                let full = s_phase1(self.combos@, evs0, 0);
                let scan_end = s_scan_combo(c, evs0, evs0.len() as int, combo_index);
                let rest1 = s_phase1(self.combos@, evs0, k + 1 as int);
                assert(rem_idx@ + scan_end.0 + rest1.0 =~= rem_idx@ + rest1.0);
                assert(adds@ + scan_end.1 + rest1.1 =~= adds@ + rest1.1);
                assert(pushes@ + scan_end.2 + rest1.2 =~= pushes@ + rest1.2);
            }
            k += 1;
        }
        let ghost p1 = s_phase1(old(self).combos@, evs0, 0);
        proof {
            assert(rem_idx@ + Seq::<usize>::empty() =~= rem_idx@);
            assert(adds@ + Seq::<Event>::empty() =~= adds@);
            assert(pushes@ + Seq::<ComboEntry>::empty() =~= pushes@);
            assert(rem_idx@ == p1.0 && adds@ == p1.1 && pushes@ == p1.2);
        }
        // Stack the fired combos, the oldest entry leaving a full ring.
        let mut pi: usize = 0;
        proof {
            assert(pushes@.skip(0) =~= pushes@);
        }
        while pi < pushes.len()
            invariant
                pi <= pushes@.len(),
                self.combos@ == old(self).combos@,
                s_push_all(old(self).stacked@, pushes@) == s_push_all(
                    self.stacked@,
                    pushes@.skip(pi as int),
                ),
            decreases pushes@.len() - pi,
        {
            proof {
                assert(pushes@.skip(pi as int)[0] == pushes@[pi as int]);
                assert(pushes@.skip(pi as int).drop_first() =~= pushes@.skip(pi + 1 as int));
            }
            let en = pushes[pi];
            let ghost st_pre = self.stacked@;
            if self.stacked.len() < 16 {
                self.stacked.push(en);
            } else {
                let _ = self.stacked.remove(0);
                self.stacked.push(en);
                proof {
                    assert(st_pre.remove(0).push(en) =~= st_pre.drop_first().push(en));
                }
            }
            pi += 1;
        }
        proof {
            assert(pushes@.skip(pushes@.len() as int) =~= Seq::<ComboEntry>::empty());
        }
        let ghost st1 = self.stacked@;
        proof {
            assert(st1 == s_push_all(old(self).stacked@, p1.2));
        }
        // Remove the paired presses, largest index first; the last
        // event takes the removed one's place.
        let ghost target = s_remove_loop(evs0, p1.0);
        while rem_idx.len() != 0
            invariant
                forall|t: int| 0 <= t < rem_idx@.len() ==> rem_idx@[t] < vec@.len(),
                target == s_remove_loop(vec@, rem_idx@),
                self.combos@ == old(self).combos@,
                self.stacked@ == st1,
            decreases rem_idx@.len(),
        {
            let mut m: usize = rem_idx[0];
            proof {
                assert(rem_idx@.contains(m)) by {
                    assert(rem_idx@[0] == m);
                }
            }
            let mut t: usize = 1;
            while t < rem_idx.len()
                invariant
                    1 <= t <= rem_idx@.len(),
                    rem_idx@.len() > 0,
                    rem_idx@.contains(m),
                    forall|q: int| 0 <= q < t ==> rem_idx@[q] <= m,
                decreases rem_idx@.len() - t,
            {
                if rem_idx[t] > m {
                    m = rem_idx[t];
                    proof {
                        assert(rem_idx@.contains(m)) by {
                            assert(rem_idx@[t as int] == m);
                        }
                    }
                }
                t += 1;
            }
            proof {
                lemma_seq_max_in(rem_idx@);
                let w = choose|w: int|
                    0 <= w < rem_idx@.len() && rem_idx@[w] == s_seq_max(rem_idx@);
                assert(rem_idx@[w] <= m);
                let w2 = choose|w2: int| 0 <= w2 < rem_idx@.len() && rem_idx@[w2] == m;
                assert(m <= s_seq_max(rem_idx@));
                assert(m == s_seq_max(rem_idx@));
                assert(m < vec@.len()) by {
                    assert(rem_idx@[w2] < vec@.len());
                }
            }
            let _ = vec.swap_remove(m);
            let mut rem2: Vec<usize> = Vec::new();
            let mut q: usize = 0;
            proof {
                reveal(Seq::filter);
                assert(rem_idx@.take(0) =~= Seq::<usize>::empty());
                assert(rem_idx@.take(0).filter(|x: usize| x != m) =~= Seq::<usize>::empty());
            }
            while q < rem_idx.len()
                invariant
                    q <= rem_idx@.len(),
                    rem2@ == rem_idx@.take(q as int).filter(|x: usize| x != m),
                    forall|t2: int| 0 <= t2 < rem_idx@.len() ==> rem_idx@[t2] <= m,
                    forall|t2: int| 0 <= t2 < rem2@.len() ==> rem2@[t2] < m,
                decreases rem_idx@.len() - q,
            {
                let x = rem_idx[q];
                proof {
                    reveal(Seq::filter);
                    assert(rem_idx@.take(q + 1 as int).drop_last() =~= rem_idx@.take(q as int));
                    assert(rem_idx@.take(q + 1 as int).last() == rem_idx@[q as int]);
                }
                if x != m {
                    rem2.push(x);
                }
                q += 1;
            }
            proof {
                assert(rem_idx@.take(rem_idx@.len() as int) =~= rem_idx@);
                lemma_filter_out_shrinks(rem_idx@, m);
                assert(forall|t2: int| 0 <= t2 < rem2@.len() ==> rem2@[t2] < vec@.len());
            }
            rem_idx = rem2;
        }
        proof {
            assert(vec@ == target);
        }
        // Append the virtual presses of the fired combos.
        let ghost vec1 = vec@;
        let mut ai: usize = 0;
        proof {
            assert(vec1 + adds@.take(0) =~= vec1);
        }
        while ai < adds.len()
            invariant
                ai <= adds@.len(),
                vec@ == vec1 + adds@.take(ai as int),
                self.combos@ == old(self).combos@,
                self.stacked@ == st1,
            decreases adds@.len() - ai,
        {
            vec.push(adds[ai]);
            proof {
                assert(vec1 + adds@.take(ai + 1 as int) =~= (vec1 + adds@.take(ai as int)).push(
                    adds@[ai as int],
                ));
            }
            ai += 1;
        }
        proof {
            assert(adds@.take(adds@.len() as int) =~= adds@);
        }
        let ghost vec2 = vec@;
        // Confront every event with the in-flight combos.
        let mut outs: Vec<Event> = Vec::new();
        let mut crem: Vec<usize> = Vec::new();
        let mut j2: usize = 0;
        proof {
            let full = s_phase4(st1, vec2, 0);
            assert(Seq::<Event>::empty() + full.1 =~= full.1);
            assert(Seq::<usize>::empty() + full.2 =~= full.2);
        }
        while j2 < vec.len()
            invariant
                j2 <= vec@.len(),
                vec@ == vec2,
                self.combos@ == old(self).combos@,
                ({
                    let full = s_phase4(st1, vec2, 0);
                    let part = s_phase4(self.stacked@, vec2, j2 as int);
                    full.0 == part.0 && full.1 == outs@ + part.1 && full.2 == crem@ + part.2
                }),
            decreases vec@.len() - j2,
        {
            let e = vec[j2];
            let ghost st_ev = self.stacked@;
            let mut fired = false;
            let mut ev_outs: Vec<Event> = Vec::new();
            let mut ev_rems: Vec<usize> = Vec::new();
            let n2 = self.stacked.len();
            let mut ci: usize = 0;
            proof {
                let entfull = s_entries_release(st_ev, e, 0);
                assert(Seq::<Event>::empty() + entfull.2 =~= entfull.2);
                assert(Seq::<usize>::empty() + entfull.3 =~= entfull.3);
            }
            while ci < n2
                invariant
                    ci <= n2,
                    n2 == self.stacked@.len(),
                    self.combos@ == old(self).combos@,
                    vec@ == vec2,
                    j2 < vec2.len(),
                    e == vec2[j2 as int],
                    ({
                        let entfull = s_entries_release(st_ev, e, 0);
                        let part = s_entries_release(self.stacked@, e, ci as int);
                        entfull.0 == part.0 && entfull.1 == (fired || part.1) && entfull.2
                            == ev_outs@ + part.2 && entfull.3 == ev_rems@ + part.3
                    }),
                decreases n2 - ci,
            {
                let en = self.stacked[ci];
                let (en1, fired_here): (ComboEntry, bool) = match e {
                    Event::Release(i2, j3) => {
                        if en.1 && en.0.0.0 == i2 && en.0.0.1 == j3 {
                            ((en.0, false, en.2), true)
                        } else if en.2 && en.0.1.0 == i2 && en.0.1.1 == j3 {
                            ((en.0, en.1, false), true)
                        } else {
                            (en, false)
                        }
                    },
                    _ => (en, false),
                };
                proof {
                    assert((en1, fired_here) == s_entry_release(en, e));
                }
                let ghost st_pre = self.stacked@;
                let ghost ev_outs_pre = ev_outs@;
                let ghost ev_rems_pre = ev_rems@;
                let slot = &mut self.stacked[ci];
                *slot = en1;
                let finished = e.is_release() && !en1.1 && !en1.2;
                if fired_here {
                    fired = true;
                }
                if finished {
                    ev_outs.push(Event::Release(en1.0.2.0, en1.0.2.1));
                    ev_rems.push(ci);
                }
                proof {
                    let part2 = s_entries_release(self.stacked@, e, ci + 1 as int);
                    if finished {
                        assert(ev_outs_pre + (seq![Event::Release(en1.0.2.0, en1.0.2.1)]
                            + part2.2) =~= ev_outs@ + part2.2);
                        assert(ev_rems_pre + (seq![ci] + part2.3) =~= ev_rems@ + part2.3);
                    } else {
                        assert(ev_outs_pre + (Seq::<Event>::empty() + part2.2) =~= ev_outs@
                            + part2.2);
                        assert(ev_rems_pre + (Seq::<usize>::empty() + part2.3) =~= ev_rems@
                            + part2.3);
                    }
                }
                ci += 1;
            }
            if !fired {
                ev_outs.push(e);
            }
            let ghost outs_pre = outs@;
            let ghost crem_pre = crem@;
            outs.append(&mut ev_outs);
            crem.append(&mut ev_rems);
            proof {
                let entfull = s_entries_release(st_ev, e, 0);
                let part2 = s_phase4(self.stacked@, vec2, j2 + 1 as int);
                if fired {
                    assert(entfull.2 + Seq::<Event>::empty() =~= entfull.2);
                }
                assert(outs_pre + (entfull.2 + (if fired {
                    Seq::<Event>::empty()
                } else {
                    seq![e]
                }) + part2.1) =~= outs@ + part2.1);
                assert(crem_pre + (entfull.3 + part2.2) =~= crem@ + part2.2);
            }
            j2 += 1;
        }
        proof {
            let full = s_phase4(st1, vec2, 0);
            assert(outs@ + Seq::<Event>::empty() =~= outs@);
            assert(crem@ + Seq::<usize>::empty() =~= crem@);
            assert(full.0 == self.stacked@ && full.1 == outs@ && full.2 == crem@);
        }
        // Remove finished combos, last collected first.
        let ghost st2 = self.stacked@;
        let ghost cremg = crem@;
        let mut t2: usize = crem.len();
        proof {
            assert(cremg.take(cremg.len() as int) =~= cremg);
        }
        while t2 > 0
            invariant
                t2 <= cremg.len(),
                crem@ == cremg,
                self.combos@ == old(self).combos@,
                s_phase5(st2, cremg) == s_phase5(self.stacked@, cremg.take(t2 as int)),
            decreases t2,
        {
            proof {
                assert(cremg.take(t2 as int).last() == cremg[t2 - 1 as int]);
                assert(cremg.take(t2 as int).drop_last() =~= cremg.take(t2 - 1 as int));
            }
            let f = crem[t2 - 1];
            if f < self.stacked.len() {
                let _ = self.stacked.remove(f);
            }
            t2 -= 1;
        }
        proof {
            assert(cremg.take(0) =~= Seq::<usize>::empty());
        }
        outs
    }
}

} // verus!
