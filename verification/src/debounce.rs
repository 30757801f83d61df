//! Debouncer definition.
//!
//! When pressed, switches don't give a clear state change: they
//! bounce. A debouncer filters these bounces. The implementation
//! validates a state change when the state has been stable for a
//! configurable number of updates. 5 ms is the recommended duration
//! for keyboard switches.

use vstd::prelude::*;
use crate::layout::Event;

verus! {

/// A pressed-keys grid: `g[row][column]` is true when that switch
/// reads pressed.
pub type Grid = Seq<Seq<bool>>;

/// The debouncer state as one mathematical value.
pub ghost struct Db {
    /// The validated state.
    pub cur: Grid,
    /// The candidate state, collecting a possible change.
    pub cand: Grid,
    /// How many consecutive updates matched the candidate.
    pub since: u16,
    /// How many consecutive equal updates validate a change.
    pub nb: u16,
}

/// The debouncer one update later: a sample equal to the validated
/// state resets the count; a new candidate starts a count of one; a
/// repeated candidate extends it (saturating); a count past the
/// threshold swaps the candidate in and reports the change.
pub open spec fn s_update(d: Db, s: Grid) -> (Db, bool) {
    if s == d.cur {
        (Db { since: 0, ..d }, false)
    } else {
        let d1 = if s != d.cand {
            Db { cand: s, since: 1, ..d }
        } else {
            Db {
                since: if d.since == 0xffff {
                    d.since
                } else {
                    (d.since + 1) as u16
                },
                ..d
            }
        };
        if d1.since > d.nb {
            (Db { cur: d1.cand, cand: d.cur, since: 0, nb: d.nb }, true)
        } else {
            (d1, false)
        }
    }
}

/// The press or release event of one cell, if its state changed.
pub open spec fn s_cell(was: bool, now: bool, i: u8, j: u8) -> Seq<Event> {
    if !was && now {
        seq![Event::Press(i, j)]
    } else if was && !now {
        seq![Event::Release(i, j)]
    } else {
        Seq::empty()
    }
}

/// The events of the first `n` cells of row `i`.
pub open spec fn s_diff_row(pr: Seq<bool>, nr: Seq<bool>, i: u8, n: int) -> Seq<Event>
    decreases n,
{
    if n <= 0 {
        Seq::empty()
    } else {
        s_diff_row(pr, nr, i, n - 1) + s_cell(pr[n - 1], nr[n - 1], i, (n - 1) as u8)
    }
}

/// The events of the first `m` rows.
pub open spec fn s_diff(prev: Grid, now: Grid, m: int) -> Seq<Event>
    decreases m,
{
    if m <= 0 {
        Seq::empty()
    } else {
        s_diff(prev, now, m - 1) + s_diff_row(
            prev[m - 1],
            now[m - 1],
            (m - 1) as u8,
            vstd::math::min(prev[m - 1].len() as int, now[m - 1].len() as int),
        )
    }
}

/// The press and release events between two grids, in row-major
/// order.
pub open spec fn s_events(prev: Grid, now: Grid) -> Seq<Event> {
    s_diff(prev, now, vstd::math::min(prev.len() as int, now.len() as int))
}

/// Whether every coordinate of the grid fits in a `u8`.
pub open spec fn s_dims_ok(g: Grid) -> bool {
    g.len() <= 256 && forall|i: int| 0 <= i < g.len() ==> (#[trigger] g[i]).len() <= 256
}

/// Whether `samples[a..b)` are all equal to `samples[a]`.
pub open spec fn s_all_equal(samples: Seq<Grid>, a: int, b: int) -> bool {
    forall|t: int| a <= t < b ==> samples[t] == samples[a]
}

/// Whether no more than `n` consecutive samples of the sequence are
/// equal.
pub open spec fn s_runs_bounded(samples: Seq<Grid>, n: int) -> bool {
    forall|a: int, b: int|
        0 <= a <= b <= samples.len() && #[trigger] s_all_equal(samples, a, b) ==> b - a <= n
}

/// The debouncer after a whole sequence of updates, with whether any
/// of them validated a change.
pub open spec fn s_updates(d: Db, samples: Seq<Grid>) -> (Db, bool)
    decreases samples.len(),
{
    if samples.len() == 0 {
        (d, false)
    } else {
        let (d1, f1) = s_update(d, samples[0]);
        let (d2, f2) = s_updates(d1, samples.drop_first());
        (d2, f1 || f2)
    }
}

proof fn lemma_debounce_stable_aux(d0: Db, full: Seq<Grid>, i: int, d: Db)
    requires
        0 <= i <= full.len(),
        s_runs_bounded(full, d0.nb as int),
        d.nb == d0.nb,
        d.cur == d0.cur,
        d.since > 0 ==> d.since <= i && d.cand != d.cur && s_all_equal(
            full,
            i - d.since,
            i,
        ) && full[i - d.since] == d.cand,
    ensures
        s_updates(d, full.skip(i)).0.cur == d0.cur,
        !s_updates(d, full.skip(i)).1,
    decreases full.len() - i,
{
    if i == full.len() {
        assert(full.skip(i) =~= Seq::<Grid>::empty());
    } else {
        assert(full.skip(i)[0] == full[i]);
        assert(full.skip(i).drop_first() =~= full.skip(i + 1));
        let s = full[i];
        if s == d.cur {
            let d1 = Db { since: 0, ..d };
            assert(s_update(d, s) == (d1, false));
            lemma_debounce_stable_aux(d0, full, i + 1, d1);
        } else if s != d.cand || d.since == 0 {
            // A fresh candidate run of length one begins at `i`.
            assert(s_all_equal(full, i, i + 1));
            assert(i + 1 - i <= d0.nb as int);
            if s != d.cand {
                let d1 = Db { cand: s, since: 1, ..d };
                assert(s_update(d, s) == (d1, false));
                lemma_debounce_stable_aux(d0, full, i + 1, d1);
            } else {
                let d1 = Db { since: 1, ..d };
                assert(s_update(d, s) == (d1, false));
                lemma_debounce_stable_aux(d0, full, i + 1, d1);
            }
        } else {
            // The candidate run extends by one and stays within the
            // threshold.
            assert(s_all_equal(full, i - d.since, i + 1)) by {
                assert(full[i] == d.cand);
                assert(full[i - d.since] == d.cand);
            }
            assert(i + 1 - (i - d.since) <= d0.nb as int);
            assert(d.since + 1 <= d0.nb as int);
            assert(d.since < 0xffff);
            let d1 = Db { since: (d.since + 1) as u16, ..d };
            assert(s_update(d, s) == (d1, false));
            lemma_debounce_stable_aux(d0, full, i + 1, d1);
        }
    }
}

/// Bounce suppression: starting at rest, an input sequence in which
/// no more than `nb` consecutive samples are ever equal never
/// validates a change: every update reports false and the validated
/// state is unchanged throughout.
pub proof fn lemma_debounce_stable(d: Db, samples: Seq<Grid>)
    requires
        d.since == 0,
        s_runs_bounded(samples, d.nb as int),
    ensures
        s_updates(d, samples).0.cur == d.cur,
        !s_updates(d, samples).1,
{
    assert(samples.skip(0) =~= samples);
    lemma_debounce_stable_aux(d, samples, 0, d);
}

/// The debouncer type.
pub struct Debouncer {
    cur: Vec<Vec<bool>>,
    new: Vec<Vec<bool>>,
    since: u16,
    nb_bounce: u16,
}

/// Whether the views of two boolean rows are equal.
fn row_eq(a: &Vec<bool>, b: &Vec<bool>) -> (r: bool)
    ensures
        r == (a@ == b@),
{
    if a.len() != b.len() {
        proof {
            assert(a@ != b@);
        }
        return false;
    }
    let mut i: usize = 0;
    while i < a.len()
        invariant
            i <= a@.len(),
            a@.len() == b@.len(),
            forall|k: int| 0 <= k < i ==> a@[k] == b@[k],
        decreases a@.len() - i,
    {
        if a[i] != b[i] {
            proof {
                assert(a@ != b@);
            }
            return false;
        }
        i += 1;
    }
    proof {
        assert(a@ =~= b@);
    }
    true
}

/// Whether the deep views of two grids are equal.
fn grid_eq(a: &Vec<Vec<bool>>, b: &Vec<Vec<bool>>) -> (r: bool)
    ensures
        r == (a.deep_view() == b.deep_view()),
{
    if a.len() != b.len() {
        proof {
            assert(a.deep_view().len() != b.deep_view().len());
        }
        return false;
    }
    let mut i: usize = 0;
    while i < a.len()
        invariant
            i <= a@.len(),
            a@.len() == b@.len(),
            forall|k: int| 0 <= k < i ==> a.deep_view()[k] == b.deep_view()[k],
        decreases a@.len() - i,
    {
        if !row_eq(&a[i], &b[i]) {
            proof {
                assert(a.deep_view()[i as int] == a@[i as int]@);
                assert(b.deep_view()[i as int] == b@[i as int]@);
                assert(a.deep_view() != b.deep_view());
            }
            return false;
        }
        proof {
            assert(a.deep_view()[i as int] == a@[i as int]@);
            assert(b.deep_view()[i as int] == b@[i as int]@);
        }
        i += 1;
    }
    proof {
        assert(a.deep_view() =~~= b.deep_view());
    }
    true
}

impl Debouncer {
    /// The debouncer state as one mathematical value.
    pub closed spec fn db(&self) -> Db {
        Db {
            cur: self.cur.deep_view(),
            cand: self.new.deep_view(),
            since: self.since,
            nb: self.nb_bounce,
        }
    }

    /// Create a new debouncer.
    ///
    /// `cur` and `new` correspond to the initial state; they should
    /// be equal at start.
    ///
    /// `nb_bounce` corresponds to the number of updates with the same
    /// state needed to validate the new state.
    pub fn new(cur: Vec<Vec<bool>>, new: Vec<Vec<bool>>, nb_bounce: u16) -> (r: Self)
        ensures
            r.db() == (Db { cur: cur.deep_view(), cand: new.deep_view(), since: 0, nb: nb_bounce }),
    {
        Self { cur, new, since: 0, nb_bounce }
    }

    /// Gets the current state.
    pub fn get(&self) -> (r: &Vec<Vec<bool>>)
        ensures
            r.deep_view() == self.db().cur,
    {
        &self.cur
    }

    /// Updates the current state. Returns `true` if the state
    /// changes.
    pub fn update(&mut self, new: Vec<Vec<bool>>) -> (r: bool)
        ensures
            final(self).db() == s_update(old(self).db(), new.deep_view()).0,
            r == s_update(old(self).db(), new.deep_view()).1,
    {
        if grid_eq(&self.cur, &new) {
            self.since = 0;
            return false;
        }
        if !grid_eq(&self.new, &new) {
            self.new = new;
            self.since = 1;
        } else {
            self.since = if self.since == 0xffff {
                self.since
            } else {
                self.since + 1
            };
        }
        if self.since > self.nb_bounce {
            core::mem::swap(&mut self.cur, &mut self.new);
            self.since = 0;
            true
        } else {
            false
        }
    }

    /// Runs an update and iterates on the `Event`s it generates: on a
    /// validated change, a press for each cell that became true and a
    /// release for each cell that became false, in row-major order.
    pub fn events(&mut self, new: Vec<Vec<bool>>) -> (r: Vec<Event>)
        requires
            s_dims_ok(old(self).db().cur),
            s_dims_ok(old(self).db().cand),
            s_dims_ok(new.deep_view()),
        ensures
            final(self).db() == s_update(old(self).db(), new.deep_view()).0,
            r@ == if s_update(old(self).db(), new.deep_view()).1 {
                s_events(final(self).db().cand, final(self).db().cur)
            } else {
                Seq::<Event>::empty()
            },
    {
        let mut r: Vec<Event> = Vec::new();
        if self.update(new) {
            let ghost prev = self.new.deep_view();
            let ghost now = self.cur.deep_view();
            let m = if self.new.len() < self.cur.len() {
                self.new.len()
            } else {
                self.cur.len()
            };
            let mut i: usize = 0;
            while i < m
                invariant
                    i <= m,
                    m == vstd::math::min(prev.len() as int, now.len() as int),
                    prev == self.new.deep_view(),
                    now == self.cur.deep_view(),
                    s_dims_ok(prev),
                    s_dims_ok(now),
                    r@ == s_diff(prev, now, i as int),
                decreases m - i,
            {
                let pr = &self.new[i];
                let nr = &self.cur[i];
                let n = if pr.len() < nr.len() {
                    pr.len()
                } else {
                    nr.len()
                };
                let mut j: usize = 0;
                while j < n
                    invariant
                        j <= n,
                        i < m,
                        m == vstd::math::min(prev.len() as int, now.len() as int),
                        n == vstd::math::min(prev[i as int].len() as int, now[i as int].len() as int),
                        pr@ == prev[i as int],
                        nr@ == now[i as int],
                        i < 256,
                        n <= 256,
                        r@ == s_diff(prev, now, i as int) + s_diff_row(
                            prev[i as int],
                            now[i as int],
                            i as u8,
                            j as int,
                        ),
                    decreases n - j,
                {
                    let was = pr[j];
                    let is_now = nr[j];
                    if !was && is_now {
                        r.push(Event::Press(i as u8, j as u8));
                    } else if was && !is_now {
                        r.push(Event::Release(i as u8, j as u8));
                    }
                    j += 1;
                }
                i += 1;
            }
        }
        r
    }
}

} // verus!
