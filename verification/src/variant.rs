//! The closed union of the three habit kinds, giving the collection,
//! renderer and archiver one uniform surface.

use vstd::prelude::*;

use crate::bit::{Bit, spec_bit_step};
use crate::command::GoalKind;
use crate::count::{Count, spec_count_step};
use crate::cursor::{Absolute, InnerData, spec_small_seek};
use crate::date::{Date, spec_month_backward, spec_month_forward};
use crate::datemap::{spec_map_has_month, spec_month_restrict};
use crate::events::{TrackEvent, ViewMode};
use crate::float::Float;

verus! {

/// One habit of any kind.
pub enum HabitVariant {
    Bit(Bit),
    Count(Count),
    Float(Float),
}

impl HabitVariant {
    pub open spec fn wf(self) -> bool {
        match self {
            HabitVariant::Bit(h) => h.wf(),
            HabitVariant::Count(h) => h.wf(),
            HabitVariant::Float(h) => h.wf(),
        }
    }

    pub open spec fn spec_name(self) -> Seq<char> {
        match self {
            HabitVariant::Bit(h) => h.name@,
            HabitVariant::Count(h) => h.name@,
            HabitVariant::Float(h) => h.name@,
        }
    }

    /// The uniform goal amount: 1 for a boolean habit, the target otherwise.
    pub open spec fn spec_goal_amount(self) -> u32 {
        match self {
            HabitVariant::Bit(_) => 1u32,
            HabitVariant::Count(h) => h.goal,
            HabitVariant::Float(h) => h.goal,
        }
    }

    /// True iff a value is recorded for `d`.
    pub open spec fn spec_contains(self, d: Date) -> bool {
        match self {
            HabitVariant::Bit(h) => h.stats@.contains_key(d),
            HabitVariant::Count(h) => h.stats@.contains_key(d),
            HabitVariant::Float(h) => h.stats@.contains_key(d),
        }
    }

    pub open spec fn spec_reached(self, d: Date) -> bool {
        match self {
            HabitVariant::Bit(h) => h.spec_reached(d),
            HabitVariant::Count(h) => h.spec_reached(d),
            HabitVariant::Float(h) => h.spec_reached(d),
        }
    }

    pub open spec fn spec_remaining(self, d: Date) -> u32 {
        match self {
            HabitVariant::Bit(h) => h.spec_remaining(d),
            HabitVariant::Count(h) => h.spec_remaining(d),
            HabitVariant::Float(h) => h.spec_remaining(d),
        }
    }

    /// True iff some recorded date falls in month (`y`, `m`).
    pub open spec fn spec_has_month(self, y: u32, m: u32) -> bool {
        match self {
            HabitVariant::Bit(h) => spec_map_has_month(h.stats@, y, m),
            HabitVariant::Count(h) => spec_map_has_month(h.stats@, y, m),
            HabitVariant::Float(h) => spec_map_has_month(h.stats@, y, m),
        }
    }

    pub open spec fn spec_view_mode(self) -> ViewMode {
        self.spec_inner().view_mode
    }

    pub open spec fn spec_inner(self) -> InnerData {
        match self {
            HabitVariant::Bit(h) => h.inner_data,
            HabitVariant::Count(h) => h.inner_data,
            HabitVariant::Float(h) => h.inner_data,
        }
    }

    /// Everything but the stats and the view state is equal.
    pub open spec fn spec_same_meta(self, other: HabitVariant) -> bool {
        match (self, other) {
            (HabitVariant::Bit(a), HabitVariant::Bit(b)) => a.name@ == b.name@ && a.goal
                == b.goal,
            (HabitVariant::Count(a), HabitVariant::Count(b)) => a.name@ == b.name@ && a.goal
                == b.goal && a.auto == b.auto,
            (HabitVariant::Float(a), HabitVariant::Float(b)) => a.name@ == b.name@ && a.goal
                == b.goal && a.precision == b.precision,
            _ => false,
        }
    }

    /// `part` is `h` with its stats cut down to exactly the entries of month
    /// (`y`, `m`): same kind, same name, goal and flags, view state carried
    /// over unchanged.
    pub open spec fn spec_is_month_part(part: HabitVariant, h: HabitVariant, y: u32, m: u32) -> bool {
        part.spec_same_meta(h) && part.spec_inner() == h.spec_inner() && match (part, h) {
            (HabitVariant::Bit(p), HabitVariant::Bit(o)) => p.stats@ == spec_month_restrict(
                o.stats@,
                y,
                m,
            ),
            (HabitVariant::Count(p), HabitVariant::Count(o)) => p.stats@ == spec_month_restrict(
                o.stats@,
                y,
                m,
            ),
            (HabitVariant::Float(p), HabitVariant::Float(o)) => p.stats@ == spec_month_restrict(
                o.stats@,
                y,
                m,
            ),
            _ => false,
        }
    }

    /// No overflow can come of applying `e` on `d`.
    pub open spec fn spec_modify_safe(self, d: Date, e: TrackEvent) -> bool {
        match self {
            HabitVariant::Bit(_) => true,
            HabitVariant::Count(h) => e == TrackEvent::Increment && h.stats@.contains_key(d)
                ==> h.stats@[d] < u32::MAX,
            HabitVariant::Float(h) => e == TrackEvent::Increment && h.stats@.contains_key(d)
                ==> h.stats@[d] < u32::MAX,
        }
    }

    /// The stats of `after` are those of `before` rewritten by one tracking
    /// event, everything else unchanged.
    pub open spec fn spec_modified(before: HabitVariant, after: HabitVariant, d: Date, e: TrackEvent) -> bool {
        after.spec_same_meta(before) && after.spec_inner() == before.spec_inner() && match (
        after,
        before,
        ) {
            (HabitVariant::Bit(a), HabitVariant::Bit(b)) => a.stats@ == spec_bit_step(
                b.stats@,
                d,
                e,
            ),
            (HabitVariant::Count(a), HabitVariant::Count(b)) => a.stats@ == spec_count_step(
                b.stats@,
                d,
                e,
            ),
            (HabitVariant::Float(a), HabitVariant::Float(b)) => a.stats@ == spec_count_step(
                b.stats@,
                d,
                e,
            ),
            _ => false,
        }
    }

    pub fn name(&self) -> (r: String)
        ensures
            r@ == self.spec_name(),
    {
        match self {
            HabitVariant::Bit(h) => h.name(),
            HabitVariant::Count(h) => h.name(),
            HabitVariant::Float(h) => h.name(),
        }
    }

    pub fn kind(&self) -> (r: GoalKind)
        ensures
            r == match *self {
                HabitVariant::Bit(_) => GoalKind::Bit,
                HabitVariant::Count(h) => GoalKind::Count(h.goal),
                HabitVariant::Float(h) => GoalKind::Float(h.goal, h.precision),
            },
    {
        match self {
            HabitVariant::Bit(h) => h.kind(),
            HabitVariant::Count(h) => h.kind(),
            HabitVariant::Float(h) => h.kind(),
        }
    }

    pub fn goal(&self) -> (r: u32)
        ensures
            r == self.spec_goal_amount(),
    {
        match self {
            HabitVariant::Bit(h) => h.goal(),
            HabitVariant::Count(h) => h.goal(),
            HabitVariant::Float(h) => h.goal(),
        }
    }

    pub fn reached_goal(&self, date: Date) -> (r: bool)
        requires
            self.wf(),
        ensures
            r == self.spec_reached(date),
    {
        match self {
            HabitVariant::Bit(h) => h.reached_goal(date),
            HabitVariant::Count(h) => h.reached_goal(date),
            HabitVariant::Float(h) => h.reached_goal(date),
        }
    }

    pub fn remaining(&self, date: Date) -> (r: u32)
        requires
            self.wf(),
        ensures
            r == self.spec_remaining(date),
    {
        match self {
            HabitVariant::Bit(h) => h.remaining(date),
            HabitVariant::Count(h) => h.remaining(date),
            HabitVariant::Float(h) => h.remaining(date),
        }
    }

    pub fn has_entry(&self, date: Date) -> (r: bool)
        requires
            self.wf(),
        ensures
            r == self.spec_contains(date),
    {
        match self {
            HabitVariant::Bit(h) => h.get_by_date(date).is_some(),
            HabitVariant::Count(h) => h.get_by_date(date).is_some(),
            HabitVariant::Float(h) => h.get_by_date(date).is_some(),
        }
    }

    /// Applies one tracking event to the record for `date`.
    pub fn modify(&mut self, date: Date, event: TrackEvent)
        requires
            old(self).wf(),
            date.spec_valid(),
            old(self).spec_modify_safe(date, event),
        ensures
            final(self).wf(),
            HabitVariant::spec_modified(*old(self), *final(self), date, event),
    {
        match self {
            HabitVariant::Bit(h) => h.modify(date, event),
            HabitVariant::Count(h) => h.modify(date, event),
            HabitVariant::Float(h) => h.modify(date, event),
        }
    }

    pub fn get_dates(&self) -> (r: Vec<Date>)
        requires
            self.wf(),
        ensures
            forall|i: int|
                0 <= i < r@.len() ==> (#[trigger] r@[i]).spec_valid() && self.spec_contains(
                    r@[i],
                ),
            forall|i: int, j: int| 0 <= i < j < r@.len() ==> r@[i] != r@[j],
            forall|d: Date| self.spec_contains(d) ==> r@.contains(d),
    {
        match self {
            HabitVariant::Bit(h) => h.get_dates(),
            HabitVariant::Count(h) => h.get_dates(),
            HabitVariant::Float(h) => h.get_dates(),
        }
    }

    /// All days from the first of `today`'s month up to (excluding) `today`
    /// with no recorded entry, in ascending order.
    pub fn missed_dates(&self, today: Date) -> (r: Vec<Date>)
        requires
            self.wf(),
            today.spec_valid(),
        ensures
            forall|i: int|
                0 <= i < r@.len() ==> {
                    let d = #[trigger] r@[i];
                    d.year == today.year && d.month == today.month && 1 <= d.day < today.day
                        && !self.spec_contains(d)
                },
            forall|dd: u32|
                1 <= dd < today.day && !self.spec_contains(
                    Date { year: today.year, month: today.month, day: dd },
                ) ==> r@.contains(Date { year: today.year, month: today.month, day: dd }),
            forall|i: int, j: int| 0 <= i < j < r@.len() ==> r@[i].day < r@[j].day,
    {
        let mut r: Vec<Date> = Vec::new();
        let mut dd: u32 = 1;
        while dd < today.day
            invariant
                self.wf(),
                today.spec_valid(),
                1 <= dd <= today.day,
                forall|i: int|
                    0 <= i < r@.len() ==> {
                        let d = #[trigger] r@[i];
                        d.year == today.year && d.month == today.month && 1 <= d.day < dd
                            && !self.spec_contains(d)
                    },
                forall|k: u32|
                    1 <= k < dd && !self.spec_contains(
                        Date { year: today.year, month: today.month, day: k },
                    ) ==> r@.contains(Date { year: today.year, month: today.month, day: k }),
                forall|i: int, j: int| 0 <= i < j < r@.len() ==> r@[i].day < r@[j].day,
            decreases today.day - dd,
        {
            let d = Date { year: today.year, month: today.month, day: dd };
            if !self.has_entry(d) {
                let ghost old_r = r@;
                r.push(d);
                proof {
                    assert forall|k: u32|
                        1 <= k < dd + 1 && !self.spec_contains(
                            Date { year: today.year, month: today.month, day: k },
                        ) implies r@.contains(
                        Date { year: today.year, month: today.month, day: k },
                    ) by {
                        let dk = Date { year: today.year, month: today.month, day: k };
                        if k < dd {
                            let i = choose|i: int| 0 <= i < old_r.len() && old_r[i] == dk;
                            assert(r@[i] == dk);
                        } else {
                            assert(r@[r@.len() - 1] == dk);
                        }
                    }
                }
            }
            dd = dd + 1;
        }
        r
    }

    pub fn has_month(&self, y: u32, m: u32) -> (r: bool)
        requires
            self.wf(),
        ensures
            r == self.spec_has_month(y, m),
    {
        match self {
            HabitVariant::Bit(h) => h.stats.has_month(y, m),
            HabitVariant::Count(h) => h.stats.has_month(y, m),
            HabitVariant::Float(h) => h.stats.has_month(y, m),
        }
    }

    /// A copy of this habit whose stats hold exactly the entries of month
    /// (`y`, `m`).
    pub fn filtered_to_month(&self, y: u32, m: u32) -> (r: HabitVariant)
        requires
            self.wf(),
        ensures
            r.wf(),
            HabitVariant::spec_is_month_part(r, *self, y, m),
    {
        match self {
            HabitVariant::Bit(h) => HabitVariant::Bit(
                Bit {
                    name: h.name.clone(),
                    stats: h.stats.filter_month(y, m),
                    goal: h.goal,
                    inner_data: h.inner_data,
                },
            ),
            HabitVariant::Count(h) => HabitVariant::Count(
                Count {
                    name: h.name.clone(),
                    stats: h.stats.filter_month(y, m),
                    goal: h.goal,
                    auto: h.auto,
                    inner_data: h.inner_data,
                },
            ),
            HabitVariant::Float(h) => HabitVariant::Float(
                Float {
                    name: h.name.clone(),
                    stats: h.stats.filter_month(y, m),
                    goal: h.goal,
                    precision: h.precision,
                    inner_data: h.inner_data,
                },
            ),
        }
    }

    pub fn inner_data_ref(&self) -> (r: &InnerData)
        ensures
            r == self.spec_inner(),
    {
        match self {
            HabitVariant::Bit(h) => h.inner_data_ref(),
            HabitVariant::Count(h) => h.inner_data_ref(),
            HabitVariant::Float(h) => h.inner_data_ref(),
        }
    }

    pub fn view_mode(&self) -> (r: ViewMode)
        ensures
            r == self.spec_view_mode(),
    {
        self.inner_data_ref().view_mode()
    }

    /// Keeps everything but the view state.
    pub fn set_view_mode(&mut self, mode: ViewMode)
        ensures
            old(self).wf() ==> final(self).wf(),
            final(self).spec_inner().view_mode == mode,
            final(self).spec_inner().cursor == old(self).spec_inner().cursor,
            HabitVariant::spec_same_content(*old(self), *final(self)),
    {
        match self {
            HabitVariant::Bit(h) => h.inner_data.set_view_mode(mode),
            HabitVariant::Count(h) => h.inner_data.set_view_mode(mode),
            HabitVariant::Float(h) => h.inner_data.set_view_mode(mode),
        }
    }

    /// Same kind, name, goal, flags and stats; only the view state may
    /// differ.
    pub open spec fn spec_same_content(a: HabitVariant, b: HabitVariant) -> bool {
        a.spec_same_meta(b) && match (a, b) {
            (HabitVariant::Bit(x), HabitVariant::Bit(y)) => x.stats@ == y.stats@ && x.stats.wf()
                == y.stats.wf(),
            (HabitVariant::Count(x), HabitVariant::Count(y)) => x.stats@ == y.stats@
                && x.stats.wf() == y.stats.wf(),
            (HabitVariant::Float(x), HabitVariant::Float(y)) => x.stats@ == y.stats@
                && x.stats.wf() == y.stats.wf(),
            _ => false,
        }
    }

    /// Pages this habit's own cursor one month ahead.
    pub fn cursor_month_forward(&mut self)
        requires
            old(self).wf(),
        ensures
            final(self).wf(),
            HabitVariant::spec_same_content(*old(self), *final(self)),
            final(self).spec_inner().cursor.0 == spec_month_forward(
                old(self).spec_inner().cursor.0,
            ),
            final(self).spec_inner().view_mode == old(self).spec_inner().view_mode,
    {
        match self {
            HabitVariant::Bit(h) => h.inner_data.cursor.month_forward(),
            HabitVariant::Count(h) => h.inner_data.cursor.month_forward(),
            HabitVariant::Float(h) => h.inner_data.cursor.month_forward(),
        }
    }

    /// Pages this habit's own cursor one month back.
    pub fn cursor_month_backward(&mut self)
        requires
            old(self).wf(),
        ensures
            final(self).wf(),
            HabitVariant::spec_same_content(*old(self), *final(self)),
            final(self).spec_inner().cursor.0 == spec_month_backward(
                old(self).spec_inner().cursor.0,
            ),
            final(self).spec_inner().view_mode == old(self).spec_inner().view_mode,
    {
        match self {
            HabitVariant::Bit(h) => h.inner_data.cursor.month_backward(),
            HabitVariant::Count(h) => h.inner_data.cursor.month_backward(),
            HabitVariant::Float(h) => h.inner_data.cursor.month_backward(),
        }
    }

    /// Puts this habit's own cursor on the given day.
    pub fn cursor_reset_to(&mut self, d: Date)
        requires
            d.spec_valid(),
        ensures
            old(self).wf() ==> final(self).wf(),
            HabitVariant::spec_same_content(*old(self), *final(self)),
            final(self).spec_inner().cursor.0 == d,
            final(self).spec_inner().view_mode == old(self).spec_inner().view_mode,
    {
        match self {
            HabitVariant::Bit(h) => h.inner_data.cursor.reset_to(d),
            HabitVariant::Count(h) => h.inner_data.cursor.reset_to(d),
            HabitVariant::Float(h) => h.inner_data.cursor.reset_to(d),
        }
    }

    /// One fine-grained step of this habit's own cursor.
    pub fn move_cursor(&mut self, dir: Absolute, today: Date)
        requires
            old(self).wf(),
            today.spec_valid(),
        ensures
            final(self).wf(),
            HabitVariant::spec_same_content(*old(self), *final(self)),
            final(self).spec_inner().cursor.0 == spec_small_seek(
                old(self).spec_inner().cursor.0,
                dir,
                today,
            ),
            final(self).spec_inner().view_mode == old(self).spec_inner().view_mode,
    {
        match self {
            HabitVariant::Bit(h) => h.inner_data.move_cursor(dir, today),
            HabitVariant::Count(h) => h.inner_data.move_cursor(dir, today),
            HabitVariant::Float(h) => h.inner_data.move_cursor(dir, today),
        }
    }
}

/// A habit's outstanding amount never exceeds its goal amount.
pub proof fn lemma_remaining_le_goal(h: HabitVariant, d: Date)
    requires
        h.wf(),
    ensures
        h.spec_remaining(d) <= h.spec_goal_amount(),
{
}

/// Law: a habit's outstanding amount on a date is zero exactly when its goal
/// is reached on that date — for every habit whose goal is positive or that
/// has a recorded entry on the date. (A counted or fractional habit with a
/// zero goal and no entry has nothing outstanding yet has not reached its
/// goal.)
pub proof fn lemma_remaining_zero_iff_reached(h: HabitVariant, d: Date)
    requires
        h.wf(),
        h.spec_goal_amount() > 0 || h.spec_contains(d),
    ensures
        (h.spec_remaining(d) == 0) <==> h.spec_reached(d),
{
}

} // verus!
