use vstd::prelude::*;

use crate::civil::{
    days_in_month, lemma_months_fill_year, spec_whole_months, CivilTime,
};
use crate::error::Error;
use crate::num::{floored_div, floored_mod};
use vstd::arithmetic::div_mod::{
    lemma_add_mod_noop, lemma_fundamental_div_mod, lemma_fundamental_div_mod_converse,
    lemma_hoist_over_denominator, lemma_mod_bound, lemma_mod_multiples_vanish, lemma_mod_self_0,
    lemma_small_mod,
};

verus! {

// The abstract rotation primitive: an ordered, non-empty sequence of
// items, a reference instant, and a granularity rule.  A query instant is
// mapped to the active item by a signed whole-unit count since the
// reference, floored division, and floored modulo, so that instants before
// the reference select items sign-correctly, and a boundary instant
// belongs to the slot it opens.

/// One rotating content item.  `weight` is a duration in minutes for
/// fixed-duration cycles, a per-item day offset for offset-day cycles, and
/// unused otherwise.
#[derive(Debug)]
pub struct Item {
    pub identifier: String,
    pub weight: i64,
}

impl Item {
    /// An owned copy of this item.
    pub fn duplicate(&self) -> (r: Item)
        ensures
            r == *self,
    {
        Item { identifier: self.identifier.clone(), weight: self.weight }
    }
}

/// How elapsed time since the reference maps to an item index.
#[derive(Debug, Clone, Copy)]
pub enum Granularity {
    /// Each item is active for its own weight in minutes.
    FixedDuration,
    /// The rotation advances one item every `step_days` whole days.
    ElapsedDays { step_days: i64 },
    /// The rotation advances one item every whole calendar month.
    ElapsedMonths,
    /// Every item rotates daily through the shared list, shifted by its
    /// own weight taken as a day offset.
    ElapsedDaysWithOffset,
}

/// The resolved state of a cycle at one query instant.
#[derive(Debug)]
pub struct ActiveState {
    pub index: usize,
    pub current: Item,
    pub next: Item,
    pub remaining: i64,
    pub lap: i64,
}

/// Minutes covered by the items before index `i`.
pub open spec fn prefix_weight(s: Seq<Item>, i: int) -> int
    decreases i,
{
    if i <= 0 {
        0
    } else {
        prefix_weight(s, i - 1) + s[i - 1].weight
    }
}

/// The index of the slot that contains position `q`, scanning forward
/// from index `i`; the last index catches anything beyond the end.
pub open spec fn slot_from(s: Seq<Item>, i: int, q: int) -> int
    decreases s.len() - i,
{
    if i + 1 >= s.len() {
        i
    } else if q < s[i].weight {
        i
    } else {
        slot_from(s, i + 1, q - s[i].weight)
    }
}

pub proof fn lemma_prefix_weight_mono(s: Seq<Item>, i: int, j: int)
    requires
        0 <= i <= j <= s.len(),
        forall|k: int| 0 <= k < s.len() ==> s[k].weight >= 1,
    ensures
        prefix_weight(s, i) + (j - i) <= prefix_weight(s, j),
    decreases j - i,
{
    if i < j {
        lemma_prefix_weight_mono(s, i, j - 1);
    }
}

pub proof fn lemma_prefix_weight_nonneg(s: Seq<Item>, i: int)
    requires
        0 <= i <= s.len(),
        forall|k: int| 0 <= k < s.len() ==> s[k].weight >= 1,
    ensures
        prefix_weight(s, i) >= i,
    decreases i,
{
    if i > 0 {
        lemma_prefix_weight_nonneg(s, i - 1);
    }
}

/// A cycle: a reference instant, an ordered non-empty item list, and a
/// granularity rule.
#[derive(Debug)]
pub struct Cycle {
    pub reference: CivilTime,
    pub items: Vec<Item>,
    pub granularity: Granularity,
}

impl Cycle {
    /// Well-formedness: a real reference instant, a non-empty item list of
    /// bounded size, and weights that fit the granularity.
    pub open spec fn wf(self) -> bool {
        &&& self.reference.wf()
        &&& 1 <= self.items@.len() <= 10000
        &&& match self.granularity {
            Granularity::FixedDuration => forall|k: int|
                0 <= k < self.items@.len() ==> 1 <= #[trigger] self.items@[k].weight <= 100000,
            Granularity::ElapsedDays { step_days } => 1 <= step_days <= 1000,
            Granularity::ElapsedMonths => true,
            Granularity::ElapsedDaysWithOffset => forall|k: int|
                0 <= k < self.items@.len() ==> -100000 <= #[trigger] self.items@[k].weight
                    <= 100000,
        }
    }

    pub open spec fn len_i(self) -> int {
        self.items@.len() as int
    }

    /// Sum of all item weights: the cycle length in minutes of a
    /// fixed-duration cycle.
    pub open spec fn total_minutes(self) -> int {
        prefix_weight(self.items@, self.len_i())
    }

    /// Whole minutes from the reference to `now`, floored.
    pub open spec fn minute_count(self, now: CivilTime) -> int {
        (now.total_secs() - self.reference.total_secs()) / 60
    }

    /// Whole days from the reference to `now`, floored.
    pub open spec fn day_count(self, now: CivilTime) -> int {
        (now.total_secs() - self.reference.total_secs()) / 86400
    }

    /// Whole calendar months from the reference to `now`.
    pub open spec fn month_count(self, now: CivilTime) -> int {
        spec_whole_months(self.reference, now)
    }

    /// The minute position of `now` within one lap of a fixed-duration
    /// cycle.
    pub open spec fn fixed_pos(self, now: CivilTime) -> int {
        self.minute_count(now) % self.total_minutes()
    }

    /// The active index of a fixed-duration cycle.
    pub open spec fn fixed_index(self, now: CivilTime) -> int {
        slot_from(self.items@, 0, self.fixed_pos(now))
    }

    /// The active index of a day-step cycle.
    pub open spec fn day_index(self, now: CivilTime, step_days: int) -> int {
        (self.day_count(now) / step_days) % self.len_i()
    }

    /// The active index of a month cycle.
    pub open spec fn month_index(self, now: CivilTime) -> int {
        self.month_count(now) % self.len_i()
    }

    /// The active index seen by an item with day offset `off`.
    pub open spec fn offset_index_s(self, now: CivilTime, off: int) -> int {
        (self.day_count(now) + off) % self.len_i()
    }

    /// The active index of this cycle at `now`, under its granularity
    /// (offset-day cycles taken at offset zero).
    pub open spec fn active_index(self, now: CivilTime) -> int {
        match self.granularity {
            Granularity::FixedDuration => self.fixed_index(now),
            Granularity::ElapsedDays { step_days } => self.day_index(now, step_days as int),
            Granularity::ElapsedMonths => self.month_index(now),
            Granularity::ElapsedDaysWithOffset => self.offset_index_s(now, 0),
        }
    }

    /// Build a cycle, failing fast on an ill-formed configuration.
    pub fn new(reference: CivilTime, items: Vec<Item>, granularity: Granularity) -> (r: Result<
        Cycle,
        Error,
    >)
        ensures
            (r matches Ok(c) ==> c.wf() && c.reference == reference && c.items@ == items@
                && c.granularity == granularity),
            (r is Err <==> !(Cycle { reference, items, granularity }).wf()),
    {
        let c = Cycle { reference, items, granularity };
        if c.check_wf() {
            Ok(c)
        } else {
            Err(Error::InvalidScheduleConfig)
        }
    }

    /// Executable well-formedness check.
    pub fn check_wf(&self) -> (r: bool)
        ensures
            r == self.wf(),
    {
        if !self.reference.check_wf() {
            return false;
        }
        if self.items.len() < 1 || self.items.len() > 10000 {
            return false;
        }
        match self.granularity {
            Granularity::FixedDuration => {
                let mut i: usize = 0;
                while i < self.items.len()
                    invariant
                        i <= self.items@.len(),
                        self.granularity is FixedDuration,
                        self.reference.wf(),
                        1 <= self.items@.len() <= 10000,
                        forall|k: int| 0 <= k < i ==> 1 <= #[trigger] self.items@[k].weight <= 100000,
                    decreases self.items@.len() - i,
                {
                    if self.items[i].weight < 1 || self.items[i].weight > 100000 {
                        proof {
                            assert(!(1 <= self.items@[i as int].weight <= 100000));
                        }
                        return false;
                    }
                    i = i + 1;
                }
                true
            },
            Granularity::ElapsedDays { step_days } => 1 <= step_days && step_days <= 1000,
            Granularity::ElapsedMonths => true,
            Granularity::ElapsedDaysWithOffset => {
                let mut i: usize = 0;
                while i < self.items.len()
                    invariant
                        i <= self.items@.len(),
                        self.granularity is ElapsedDaysWithOffset,
                        self.reference.wf(),
                        1 <= self.items@.len() <= 10000,
                        forall|k: int|
                            0 <= k < i ==> -100000 <= #[trigger] self.items@[k].weight <= 100000,
                    decreases self.items@.len() - i,
                {
                    if self.items[i].weight < -100000 || self.items[i].weight > 100000 {
                        proof {
                            assert(!(-100000 <= self.items@[i as int].weight <= 100000));
                        }
                        return false;
                    }
                    i = i + 1;
                }
                true
            },
        }
    }

    /// Sum of all item weights.
    pub fn total_duration(&self) -> (r: i64)
        requires
            self.wf(),
            self.granularity is FixedDuration,
        ensures
            r == self.total_minutes(),
            1 <= r <= 1_000_000_000,
    {
        let mut acc: i64 = 0;
        let mut i: usize = 0;
        while i < self.items.len()
            invariant
                i <= self.items@.len() <= 10000,
                acc == prefix_weight(self.items@, i as int),
                0 <= acc <= 100000 * i,
                forall|k: int|
                    0 <= k < self.items@.len() ==> 1 <= #[trigger] self.items@[k].weight <= 100000,
            decreases self.items@.len() - i,
        {
            acc = acc + self.items[i].weight;
            i = i + 1;
        }
        proof {
            lemma_prefix_weight_nonneg(self.items@, self.len_i());
        }
        acc
    }

    /// Resolve the cycle at `now`: the active item, the item that follows
    /// it in natural order, the time remaining in the active slot (minutes
    /// for fixed-duration cycles, days otherwise, zero for month cycles),
    /// and the signed lap count.
    pub fn resolve(&self, now: &CivilTime) -> (r: ActiveState)
        requires
            self.wf(),
            now.wf(),
        ensures
            0 <= r.index < self.len_i(),
            r.index == self.active_index(*now),
            r.current == self.items@[r.index as int],
            r.next == self.items@[((r.index + 1) as int % self.len_i())],
            (match self.granularity {
                Granularity::FixedDuration => r.remaining == prefix_weight(
                    self.items@,
                    r.index as int,
                ) + self.items@[r.index as int].weight - self.fixed_pos(*now) && r.lap
                    == self.minute_count(*now) / self.total_minutes() && 1 <= r.remaining
                    <= 100000,
                Granularity::ElapsedDays { step_days } => r.remaining == step_days
                    - self.day_count(*now) % step_days as int && r.lap == (self.day_count(*now)
                    / step_days as int) / self.len_i(),
                Granularity::ElapsedMonths => r.remaining == 0 && r.lap == self.month_count(*now)
                    / self.len_i(),
                Granularity::ElapsedDaysWithOffset => r.remaining == 1 && r.lap == self.day_count(
                    *now,
                ) / self.len_i(),
            }),
    {
        match self.granularity {
            Granularity::FixedDuration => self.resolve_fixed(now),
            Granularity::ElapsedDays { step_days } => {
                let u = now.whole_days_since(&self.reference);
                let q = floored_div(u, step_days);
                let idx = floored_mod(q, self.items.len() as i64) as usize;
                let lap = floored_div(q, self.items.len() as i64);
                let rem = step_days - floored_mod(u, step_days);
                self.build_state(idx, rem, lap)
            },
            Granularity::ElapsedMonths => {
                let em = now.whole_months_since(&self.reference);
                let idx = floored_mod(em, self.items.len() as i64) as usize;
                let lap = floored_div(em, self.items.len() as i64);
                self.build_state(idx, 0, lap)
            },
            Granularity::ElapsedDaysWithOffset => {
                let u = now.whole_days_since(&self.reference);
                let idx = floored_mod(u, self.items.len() as i64) as usize;
                let lap = floored_div(u, self.items.len() as i64);
                self.build_state(idx, 1, lap)
            },
        }
    }

    /// Resolve after checking the invariants at run time: a cycle or an
    /// instant that construction should have refused is surfaced as an
    /// explicit error, never a silent default item.
    pub fn try_resolve(&self, now: &CivilTime) -> (r: Result<ActiveState, Error>)
        ensures
            (self.wf() && now.wf()) ==> (r matches Ok(st) && 0 <= st.index < self.len_i()
                && st.index == self.active_index(*now) && st.current == self.items@[st.index as int]),
            !(self.wf() && now.wf()) ==> r == Err::<ActiveState, Error>(
                Error::ScheduleInvariantViolated,
            ),
    {
        if self.check_wf() && now.check_wf() {
            Ok(self.resolve(now))
        } else {
            Err(Error::ScheduleInvariantViolated)
        }
    }

    /// The index of the shared label list that an item with day offset
    /// `off` points at when queried at `now`.
    pub fn offset_index(&self, now: &CivilTime, off: i64) -> (r: usize)
        requires
            self.wf(),
            now.wf(),
            -1_000_000 <= off <= 1_000_000,
        ensures
            r == self.offset_index_s(*now, off as int),
            r < self.len_i(),
    {
        let u = now.whole_days_since(&self.reference);
        floored_mod(u + off, self.items.len() as i64) as usize
    }

    fn build_state(&self, idx: usize, remaining: i64, lap: i64) -> (r: ActiveState)
        requires
            self.wf(),
            idx < self.items@.len(),
        ensures
            r.index == idx,
            r.current == self.items@[idx as int],
            r.next == self.items@[((idx + 1) as int % self.len_i())],
            r.remaining == remaining,
            r.lap == lap,
    {
        let nxt_i: usize = if idx + 1 < self.items.len() {
            idx + 1
        } else {
            0
        };
        proof {
            if idx + 1 == self.items@.len() {
                vstd::arithmetic::div_mod::lemma_mod_self_0(self.len_i());
            } else {
                vstd::arithmetic::div_mod::lemma_small_mod((idx + 1) as nat, self.items@.len());
            }
        }
        ActiveState {
            index: idx,
            current: self.items[idx].duplicate(),
            next: self.items[nxt_i].duplicate(),
            remaining,
            lap,
        }
    }

    #[verifier::rlimit(50)]
    fn resolve_fixed(&self, now: &CivilTime) -> (r: ActiveState)
        requires
            self.wf(),
            now.wf(),
            self.granularity is FixedDuration,
        ensures
            0 <= r.index < self.len_i(),
            r.index == self.fixed_index(*now),
            r.current == self.items@[r.index as int],
            r.next == self.items@[((r.index + 1) as int % self.len_i())],
            r.remaining == prefix_weight(self.items@, r.index as int) + self.items@[r.index as int].weight
                - self.fixed_pos(*now),
            1 <= r.remaining <= 100000,
            r.lap == self.minute_count(*now) / self.total_minutes(),
    {
        let total = self.total_duration();
        let m = now.whole_minutes_since(&self.reference);
        let p = floored_mod(m, total);
        let lap = floored_div(m, total);
        let mut i: usize = 0;
        let mut acc: i64 = 0;
        while i < self.items.len()
            invariant
                self.wf(),
                self.granularity is FixedDuration,
                i < self.items@.len(),
                acc == prefix_weight(self.items@, i as int),
                0 <= acc <= p,
                0 <= p < self.total_minutes(),
                self.total_minutes() <= 1_000_000_000,
                self.fixed_index(*now) == slot_from(self.items@, i as int, p - acc),
                p == self.fixed_pos(*now),
                lap == self.minute_count(*now) / self.total_minutes(),
            decreases self.items@.len() - i,
        {
            let w = self.items[i].weight;
            if p - acc < w {
                return self.build_state(i, acc + w - p, lap);
            }
            proof {
                if i + 1 == self.items@.len() {
                    assert(prefix_weight(self.items@, (i + 1) as int) == acc + w);
                    assert(p < prefix_weight(self.items@, self.len_i()));
                    assert(false);
                }
            }
            acc = acc + w;
            i = i + 1;
        }
        proof {
            assert(false);
        }
        self.build_state(0, 0, lap)
    }
}

/// The phase of a query instant within an active period.
#[derive(Debug, Clone, Copy, PartialEq, Eq, Structural)]
pub enum Transition {
    Start,
    Mid,
    End,
}

impl Cycle {
    /// Classify `now` against the active items one civil day earlier and
    /// later: `Start` where the active identifier just changed, `End`
    /// where it is about to, `Mid` elsewhere.
    pub fn classify(&self, now: &CivilTime) -> (r: Transition)
        requires
            self.wf(),
            now.wf(),
            2 <= now.year <= 9998,
        ensures
            ({
                let i0 = self.active_index(now.prev_civil());
                let i1 = self.active_index(*now);
                let i2 = self.active_index(now.next_civil());
                r == (if self.items@[i1].identifier@ != self.items@[i0].identifier@ {
                    Transition::Start
                } else if self.items@[i1].identifier@ != self.items@[i2].identifier@ {
                    Transition::End
                } else {
                    Transition::Mid
                })
            }),
    {
        let today = self.resolve(now);
        let yesterday = self.resolve(&now.prev_day());
        let tomorrow = self.resolve(&now.next_day());
        if !(today.current.identifier == yesterday.current.identifier) {
            Transition::Start
        } else if !(today.current.identifier == tomorrow.current.identifier) {
            Transition::End
        } else {
            Transition::Mid
        }
    }
}

// The laws of the rotation engine.  Each is a statement over the spec
// functions that `resolve` is specified with, proved once and for all
// cycles; the boundary scenarios of the test suite instantiate them on
// concrete data.

/// Reference anchoring: at the reference instant, every granularity
/// selects the first item.
pub proof fn lemma_reference_anchor(c: Cycle)
    requires
        c.wf(),
    ensures
        c.active_index(c.reference) == 0,
{
    let n = c.len_i();
    assert(c.reference.total_secs() - c.reference.total_secs() == 0);
    lemma_small_mod(0nat, n as nat);
    match c.granularity {
        Granularity::FixedDuration => {
            lemma_prefix_weight_nonneg(c.items@, c.len_i());
            let t = c.total_minutes();
            lemma_small_mod(0nat, t as nat);
            assert(c.items@[0].weight >= 1);
            assert(slot_from(c.items@, 0, 0) == 0);
        },
        _ => {},
    }
}

/// Periodicity of a fixed-duration cycle: two instants one whole cycle of
/// minutes apart resolve to the same item.  Applied with the arguments
/// swapped, the same statement covers one cycle backward.
pub proof fn lemma_fixed_periodicity(c: Cycle, now: CivilTime, other: CivilTime)
    requires
        c.wf(),
        c.granularity is FixedDuration,
        other.total_secs() == now.total_secs() + 60 * c.total_minutes(),
    ensures
        c.fixed_index(other) == c.fixed_index(now),
        c.fixed_pos(other) == c.fixed_pos(now),
{
    let t = c.total_minutes();
    let d1 = now.total_secs() - c.reference.total_secs();
    lemma_prefix_weight_nonneg(c.items@, c.len_i());
    lemma_hoist_over_denominator(d1, t, 60nat);
    assert(c.minute_count(other) == c.minute_count(now) + t);
    lemma_mod_multiples_vanish(1, c.minute_count(now), t);
}

/// Periodicity of a day-step cycle: two instants one whole cycle of days
/// apart resolve to the same item.
pub proof fn lemma_day_periodicity(c: Cycle, now: CivilTime, other: CivilTime, step: i64)
    requires
        c.wf(),
        c.granularity == (Granularity::ElapsedDays { step_days: step }),
        other.total_secs() == now.total_secs() + 86400 * step * c.len_i(),
    ensures
        c.day_index(other, step as int) == c.day_index(now, step as int),
{
    let n = c.len_i();
    let d1 = now.total_secs() - c.reference.total_secs();
    assert(86400 * step * n == (step * n) * 86400) by (nonlinear_arith);
    lemma_hoist_over_denominator(d1, step * n, 86400nat);
    assert(c.day_count(other) == c.day_count(now) + step * n);
    assert(step * n == n * step) by (nonlinear_arith);
    lemma_hoist_over_denominator(c.day_count(now), n, step as nat);
    assert(c.day_count(other) / step as int == c.day_count(now) / step as int + n);
    lemma_mod_multiples_vanish(1, c.day_count(now) / step as int, n);
}

/// Periodicity of a month cycle: two instants a whole cycle of calendar
/// months apart resolve to the same item.
pub proof fn lemma_month_periodicity(c: Cycle, now: CivilTime, other: CivilTime)
    requires
        c.wf(),
        c.granularity is ElapsedMonths,
        c.month_count(other) == c.month_count(now) + c.len_i(),
    ensures
        c.month_index(other) == c.month_index(now),
{
    lemma_mod_multiples_vanish(1, c.month_count(now), c.len_i());
}

/// Periodicity of an offset-day rotation: a whole cycle of days later,
/// every item points at the same label again, whatever its offset.
pub proof fn lemma_offset_periodicity(c: Cycle, now: CivilTime, other: CivilTime, off: int)
    requires
        c.wf(),
        c.granularity is ElapsedDaysWithOffset,
        other.total_secs() == now.total_secs() + 86400 * c.len_i(),
    ensures
        c.offset_index_s(other, off) == c.offset_index_s(now, off),
{
    let n = c.len_i();
    let d1 = now.total_secs() - c.reference.total_secs();
    lemma_hoist_over_denominator(d1, n, 86400nat);
    assert(c.day_count(other) == c.day_count(now) + n);
    lemma_mod_multiples_vanish(1, c.day_count(now) + off, n);
}

/// In a fixed-duration cycle, the instant one second before the reference
/// resolves to the last item: wraparound before the reference is
/// sign-correct and never leaves the index range.  With the periodicity
/// law this covers the instant just before any whole number of cycles
/// before the reference.
pub proof fn lemma_fixed_negative_wraparound(c: Cycle, now: CivilTime)
    requires
        c.wf(),
        c.granularity is FixedDuration,
        now.total_secs() == c.reference.total_secs() - 1,
    ensures
        c.fixed_index(now) == c.len_i() - 1,
{
    let t = c.total_minutes();
    lemma_prefix_weight_nonneg(c.items@, c.len_i());
    lemma_fundamental_div_mod_converse(-1, 60, -1, 59);
    assert(c.minute_count(now) == -1);
    lemma_fundamental_div_mod_converse(-1, t, -1, t - 1);
    assert(c.fixed_pos(now) == t - 1);
    lemma_slot_from_last(c.items@, 0);
}

/// In a day-step cycle, the instant one second before the reference
/// resolves to the last item.
pub proof fn lemma_day_negative_wraparound(c: Cycle, now: CivilTime, step: i64)
    requires
        c.wf(),
        c.granularity == (Granularity::ElapsedDays { step_days: step }),
        now.total_secs() == c.reference.total_secs() - 1,
    ensures
        c.day_index(now, step as int) == c.len_i() - 1,
{
    let n = c.len_i();
    lemma_fundamental_div_mod_converse(-1, 86400, -1, 86399);
    assert(c.day_count(now) == -1);
    lemma_fundamental_div_mod_converse(-1, step as int, -1, step - 1);
    lemma_fundamental_div_mod_converse(-1, n, -1, n - 1);
}

/// In a month cycle, an instant in the month before the reference (a
/// whole-month count of minus one) resolves to the last item.
pub proof fn lemma_month_negative_wraparound(c: Cycle, now: CivilTime)
    requires
        c.wf(),
        c.granularity is ElapsedMonths,
        c.month_count(now) == -1,
    ensures
        c.month_index(now) == c.len_i() - 1,
{
    let n = c.len_i();
    lemma_fundamental_div_mod_converse(-1, n, -1, n - 1);
}

/// The slot of the last position of a lap is the last item.
proof fn lemma_slot_from_last(s: Seq<Item>, i: int)
    requires
        0 <= i < s.len(),
        forall|k: int| 0 <= k < s.len() ==> #[trigger] s[k].weight >= 1,
    ensures
        slot_from(s, i, prefix_weight(s, s.len() as int) - prefix_weight(s, i) - 1) == s.len() - 1,
    decreases s.len() - i,
{
    let q = prefix_weight(s, s.len() as int) - prefix_weight(s, i) - 1;
    if i + 1 < s.len() {
        lemma_prefix_weight_mono(s, i + 1, s.len() as int);
        assert(prefix_weight(s, i + 1) == prefix_weight(s, i) + s[i].weight);
        assert(q >= s[i].weight);
        lemma_slot_from_last(s, i + 1);
    } else {
        lemma_prefix_weight_mono(s, i, s.len() as int);
    }
}

/// Transition classification is exact: in a day-step cycle whose adjacent
/// items bear distinct identifiers, the active identifier differs from
/// the previous day's exactly on the first day of a period, and from the
/// next day's exactly on the last day.  Together with the contract of
/// `classify`, the first day of each period classifies as `Start`, the
/// last as `End`, and every other day as `Mid`.
#[verifier::rlimit(50)]
pub proof fn lemma_transition_exact(c: Cycle, now: CivilTime, step: i64)
    requires
        c.wf(),
        c.granularity == (Granularity::ElapsedDays { step_days: step }),
        2 <= c.len_i(),
        forall|k: int|
            0 <= k < c.len_i() ==> c.items@[k].identifier@ != #[trigger] c.items@[(k + 1)
                % c.len_i()].identifier@,
        now.wf(),
        2 <= now.year <= 9998,
    ensures
        ({
            let pos = c.day_count(now) % step as int;
            let i0 = c.active_index(now.prev_civil());
            let i1 = c.active_index(now);
            let i2 = c.active_index(now.next_civil());
            &&& ((c.items@[i1].identifier@ != c.items@[i0].identifier@) <==> pos == 0)
            &&& ((c.items@[i1].identifier@ != c.items@[i2].identifier@) <==> pos == step - 1)
        }),
{
    let n = c.len_i();
    let st = step as int;
    let u = c.day_count(now);
    let q = u / st;
    let pos = u % st;
    lemma_prev_civil(now);
    lemma_next_civil(now);
    let d1 = now.total_secs() - c.reference.total_secs();
    lemma_hoist_over_denominator(d1, -1, 86400nat);
    lemma_hoist_over_denominator(d1, 1, 86400nat);
    assert(c.day_count(now.prev_civil()) == u - 1);
    assert(c.day_count(now.next_civil()) == u + 1);
    lemma_fundamental_div_mod(u, st);
    lemma_mod_bound(u, st);
    lemma_mod_bound(q, n);
    lemma_mod_bound(q - 1, n);
    lemma_mod_bound(q + 1, n);
    let i1 = q % n;
    // The previous day.
    if pos == 0 {
        assert(u - 1 == st * (q - 1) + (st - 1) && u - 1 == (q - 1) * st + (st - 1))
            by (nonlinear_arith)
            requires
                u == st * q + pos,
                pos == 0,
        ;
        lemma_fundamental_div_mod_converse((u - 1) as int, st, q - 1, st - 1);
        assert((u - 1) / st == q - 1);
        lemma_adjacent_mod_distinct(c, q - 1);
    } else {
        assert(u - 1 == st * q + (pos - 1) && u - 1 == q * st + (pos - 1)) by (nonlinear_arith)
            requires
                u == st * q + pos,
        ;
        lemma_fundamental_div_mod_converse((u - 1) as int, st, q, pos - 1);
        assert((u - 1) / st == q);
    }
    // The next day.
    if pos == st - 1 {
        assert(u + 1 == st * (q + 1) + 0 && u + 1 == (q + 1) * st + 0) by (nonlinear_arith)
            requires
                u == st * q + pos,
                pos == st - 1,
        ;
        lemma_fundamental_div_mod_converse((u + 1) as int, st, q + 1, 0);
        assert((u + 1) / st == q + 1);
        lemma_adjacent_mod_distinct(c, q);
    } else {
        assert(u + 1 == st * q + (pos + 1) && u + 1 == q * st + (pos + 1)) by (nonlinear_arith)
            requires
                u == st * q + pos,
        ;
        lemma_fundamental_div_mod_converse((u + 1) as int, st, q, pos + 1);
        assert((u + 1) / st == q);
    }
}

/// With adjacent identifiers distinct, the items at lap positions `q` and
/// `q + 1` bear different identifiers.
proof fn lemma_adjacent_mod_distinct(c: Cycle, q: int)
    requires
        c.wf(),
        2 <= c.len_i(),
        forall|k: int|
            0 <= k < c.len_i() ==> c.items@[k].identifier@ != #[trigger] c.items@[(k + 1)
                % c.len_i()].identifier@,
    ensures
        c.items@[q % c.len_i()].identifier@ != c.items@[(q + 1) % c.len_i()].identifier@,
{
    let n = c.len_i();
    let j = q % n;
    lemma_mod_bound(q, n);
    lemma_add_mod_noop(q, 1, n);
    lemma_small_mod(1nat, n as nat);
    if j + 1 < n {
        lemma_small_mod((j + 1) as nat, n as nat);
        assert((q + 1) % n == (j + 1) % n);
    } else {
        lemma_mod_self_0(n);
        assert((q + 1) % n == (j + 1) % n);
    }
    assert(c.items@[j].identifier@ != c.items@[(j + 1) % n].identifier@);
}

/// Stepping a well-formed civil time to the previous day moves its
/// absolute seconds back by exactly one day.
pub proof fn lemma_prev_civil(c: CivilTime)
    requires
        c.wf(),
        !(c.year == 1 && c.month == 1 && c.day == 1),
    ensures
        c.prev_civil().wf(),
        c.prev_civil().total_secs() == c.total_secs() - 86400,
{
    if c.day > 1 {
    } else if c.month > 1 {
    } else {
        lemma_months_fill_year(c.year as int - 1);
    }
}

/// Stepping a well-formed civil time to the next day moves its absolute
/// seconds forward by exactly one day.
pub proof fn lemma_next_civil(c: CivilTime)
    requires
        c.wf(),
        !(c.year == 9999 && c.month == 12 && c.day == 31),
    ensures
        c.next_civil().wf(),
        c.next_civil().total_secs() == c.total_secs() + 86400,
{
    if c.day < days_in_month(c.year as int, c.month as int) {
    } else if c.month < 12 {
    } else {
        lemma_months_fill_year(c.year as int);
    }
}

} // verus!
