//! The fractional habit kind: amounts carried as whole multiples of the
//! smallest step at a fixed decimal precision, so all arithmetic is exact
//! integer arithmetic at that precision. One tracking event moves the record
//! by one step; the goal is held in the same scaled units.

use vstd::prelude::*;

use crate::command::GoalKind;
use crate::count::spec_count_step;
use crate::cursor::InnerData;
use crate::date::Date;
use crate::datemap::DateMap;
use crate::events::TrackEvent;

verus! {

/// A habit whose daily record is a scaled fractional amount.
pub struct Float {
    pub name: String,
    /// Amounts in smallest steps at `precision` decimal digits.
    pub stats: DateMap<u32>,
    /// The target, in the same scaled units.
    pub goal: u32,
    /// How many decimal digits one step stands for.
    pub precision: u8,
    pub inner_data: InnerData,
}

impl Float {
    pub open spec fn wf(self) -> bool {
        self.stats.wf() && self.inner_data.cursor.0.spec_valid()
    }

    /// True iff the scaled amount recorded for `d` meets or exceeds the goal.
    pub open spec fn spec_reached(self, d: Date) -> bool {
        self.stats@.contains_key(d) && self.stats@[d] >= self.goal
    }

    /// The outstanding scaled amount on `d`: 0 once reached, otherwise the
    /// goal less anything recorded.
    pub open spec fn spec_remaining(self, d: Date) -> u32 {
        if self.spec_reached(d) {
            0
        } else if self.stats@.contains_key(d) {
            (self.goal - self.stats@[d]) as u32
        } else {
            self.goal
        }
    }

    pub fn new(name: &str, goal: u32, precision: u8) -> (r: Float)
        ensures
            r.wf(),
            r.name@ == name@,
            r.stats@ == Map::<Date, u32>::empty(),
            r.goal == goal,
            r.precision == precision,
            r.inner_data.view_mode == crate::events::ViewMode::Day,
    {
        Float {
            name: name.to_owned(),
            stats: DateMap::new(),
            goal,
            precision,
            inner_data: InnerData::fresh(),
        }
    }

    pub fn name(&self) -> (r: String)
        ensures
            r@ == self.name@,
    {
        self.name.clone()
    }

    pub fn kind(&self) -> (r: GoalKind)
        ensures
            r == GoalKind::Float(self.goal, self.precision),
    {
        GoalKind::Float(self.goal, self.precision)
    }

    pub fn get_by_date(&self, date: Date) -> (r: Option<u32>)
        requires
            self.wf(),
        ensures
            match r {
                Some(v) => self.stats@.contains_key(date) && self.stats@[date] == v,
                None => !self.stats@.contains_key(date),
            },
    {
        self.stats.get(date)
    }

    pub fn get_dates(&self) -> (r: Vec<Date>)
        requires
            self.wf(),
        ensures
            forall|i: int|
                0 <= i < r@.len() ==> (#[trigger] r@[i]).spec_valid()
                    && self.stats@.contains_key(r@[i]),
            forall|i: int, j: int| 0 <= i < j < r@.len() ==> r@[i] != r@[j],
            forall|d: Date| self.stats@.contains_key(d) ==> r@.contains(d),
    {
        self.stats.dates()
    }

    /// Sets or overwrites the scaled amount recorded for `date`.
    pub fn insert_entry(&mut self, date: Date, val: u32)
        requires
            old(self).wf(),
            date.spec_valid(),
        ensures
            final(self).wf(),
            final(self).stats@ == old(self).stats@.insert(date, val),
            final(self).name == old(self).name,
            final(self).goal == old(self).goal,
            final(self).precision == old(self).precision,
            final(self).inner_data == old(self).inner_data,
    {
        self.stats.insert(date, val);
    }

    pub fn reached_goal(&self, date: Date) -> (r: bool)
        requires
            self.wf(),
        ensures
            r == self.spec_reached(date),
    {
        match self.stats.get(date) {
            Some(val) => val >= self.goal,
            None => false,
        }
    }

    pub fn remaining(&self, date: Date) -> (r: u32)
        requires
            self.wf(),
        ensures
            r == self.spec_remaining(date),
    {
        if self.reached_goal(date) {
            0
        } else {
            match self.stats.get(date) {
                Some(val) => self.goal - val,
                None => self.goal,
            }
        }
    }

    pub fn goal(&self) -> (r: u32)
        ensures
            r == self.goal,
    {
        self.goal
    }

    /// Applies one tracking event, moving the record by one smallest step,
    /// with the same sparse-zero policy as a counted habit.
    pub fn modify(&mut self, date: Date, event: TrackEvent)
        requires
            old(self).wf(),
            date.spec_valid(),
            event == TrackEvent::Increment && old(self).stats@.contains_key(date) ==> old(
                self,
            ).stats@[date] < u32::MAX,
        ensures
            final(self).wf(),
            final(self).stats@ == spec_count_step(old(self).stats@, date, event),
            final(self).name == old(self).name,
            final(self).goal == old(self).goal,
            final(self).precision == old(self).precision,
            final(self).inner_data == old(self).inner_data,
    {
        match event {
            TrackEvent::Increment => {
                match self.stats.get(date) {
                    Some(val) => self.stats.insert(date, val + 1),
                    None => self.stats.insert(date, 1),
                }
            },
            TrackEvent::Decrement => {
                match self.stats.get(date) {
                    Some(val) => {
                        if val > 1 {
                            self.stats.insert(date, val - 1);
                        } else {
                            self.stats.remove(date);
                        }
                    },
                    None => {},
                }
            },
        }
    }

    pub fn inner_data_ref(&self) -> (r: &InnerData)
        ensures
            r == self.inner_data,
    {
        &self.inner_data
    }
}

} // verus!
