//! The boolean habit kind: one toggleable value per date, goal "done".

use vstd::prelude::*;

use crate::command::GoalKind;
use crate::cursor::InnerData;
use crate::date::Date;
use crate::datemap::DateMap;
use crate::events::TrackEvent;

verus! {

/// A recorded boolean value.
#[derive(Clone, Copy, Debug, PartialEq, Eq, Structural)]
pub struct CustomBool(pub bool);

impl From<bool> for CustomBool {
    fn from(b: bool) -> (r: Self) {
        CustomBool(b)
    }
}

impl vstd::std_specs::convert::FromSpecImpl<bool> for CustomBool {
    open spec fn obeys_from_spec() -> bool {
        true
    }

    open spec fn from_spec(b: bool) -> Self {
        CustomBool(b)
    }
}

/// How one tracking event rewrites a boolean habit's stats: incrementing
/// records true on an absent date and toggles a present one; decrementing
/// turns true into a recorded false, drops a recorded false, and leaves an
/// absent date untouched.
pub open spec fn spec_bit_step(m: Map<Date, CustomBool>, d: Date, e: TrackEvent) -> Map<
    Date,
    CustomBool,
> {
    match e {
        TrackEvent::Increment => if m.contains_key(d) {
            m.insert(d, CustomBool(!m[d].0))
        } else {
            m.insert(d, CustomBool(true))
        },
        TrackEvent::Decrement => if m.contains_key(d) {
            if m[d].0 {
                m.insert(d, CustomBool(false))
            } else {
                m.remove(d)
            }
        } else {
            m
        },
    }
}

/// A habit whose daily record is a single boolean.
pub struct Bit {
    pub name: String,
    pub stats: DateMap<CustomBool>,
    pub goal: CustomBool,
    pub inner_data: InnerData,
}

impl Bit {
    /// The stats are a well-formed sparse map and the goal is "done".
    pub open spec fn wf(self) -> bool {
        self.stats.wf() && self.goal.0 == true && self.inner_data.cursor.0.spec_valid()
    }

    /// True iff the recorded value for `d` meets the goal.
    pub open spec fn spec_reached(self, d: Date) -> bool {
        self.stats@.contains_key(d) && (self.stats@[d].0 || !self.goal.0)
    }

    /// 0 when done on `d`, 1 otherwise.
    pub open spec fn spec_remaining(self, d: Date) -> u32 {
        if self.stats@.contains_key(d) && self.stats@[d].0 {
            0
        } else {
            1
        }
    }

    pub fn new(name: &str) -> (r: Bit)
        ensures
            r.wf(),
            r.name@ == name@,
            r.stats@ == Map::<Date, CustomBool>::empty(),
            r.goal == (CustomBool(true)),
            r.inner_data.view_mode == crate::events::ViewMode::Day,
    {
        Bit {
            name: name.to_owned(),
            stats: DateMap::new(),
            goal: CustomBool(true),
            inner_data: InnerData::fresh(),
        }
    }

    pub fn name(&self) -> (r: String)
        ensures
            r@ == self.name@,
    {
        self.name.clone()
    }

    pub fn kind(&self) -> (r: GoalKind)
        ensures
            r == GoalKind::Bit,
    {
        GoalKind::Bit
    }

    pub fn get_by_date(&self, date: Date) -> (r: Option<CustomBool>)
        requires
            self.wf(),
        ensures
            match r {
                Some(v) => self.stats@.contains_key(date) && self.stats@[date] == v,
                None => !self.stats@.contains_key(date),
            },
    {
        self.stats.get(date)
    }

    pub fn get_dates(&self) -> (r: Vec<Date>)
        requires
            self.wf(),
        ensures
            forall|i: int|
                0 <= i < r@.len() ==> (#[trigger] r@[i]).spec_valid()
                    && self.stats@.contains_key(r@[i]),
            forall|i: int, j: int| 0 <= i < j < r@.len() ==> r@[i] != r@[j],
            forall|d: Date| self.stats@.contains_key(d) ==> r@.contains(d),
    {
        self.stats.dates()
    }

    /// Sets or overwrites the value recorded for `date`.
    pub fn insert_entry(&mut self, date: Date, val: CustomBool)
        requires
            old(self).wf(),
            date.spec_valid(),
        ensures
            final(self).wf(),
            final(self).stats@ == old(self).stats@.insert(date, val),
            final(self).name == old(self).name,
            final(self).goal == old(self).goal,
            final(self).inner_data == old(self).inner_data,
    {
        self.stats.insert(date, val);
    }

    pub fn reached_goal(&self, date: Date) -> (r: bool)
        requires
            self.wf(),
        ensures
            r == self.spec_reached(date),
    {
        match self.stats.get(date) {
            Some(val) => val.0 || !self.goal.0,
            None => false,
        }
    }

    pub fn remaining(&self, date: Date) -> (r: u32)
        requires
            self.wf(),
        ensures
            r == self.spec_remaining(date),
    {
        match self.stats.get(date) {
            Some(val) => if val.0 {
                0
            } else {
                1
            },
            None => 1,
        }
    }

    /// The uniform goal amount of a boolean habit.
    pub fn goal(&self) -> (r: u32)
        ensures
            r == 1,
    {
        1
    }

    /// Applies one tracking event to the record for `date`.
    pub fn modify(&mut self, date: Date, event: TrackEvent)
        requires
            old(self).wf(),
            date.spec_valid(),
        ensures
            final(self).wf(),
            final(self).stats@ == spec_bit_step(old(self).stats@, date, event),
            final(self).name == old(self).name,
            final(self).goal == old(self).goal,
            final(self).inner_data == old(self).inner_data,
    {
        match event {
            TrackEvent::Increment => {
                match self.stats.get(date) {
                    Some(val) => self.stats.insert(date, CustomBool(!val.0)),
                    None => self.stats.insert(date, CustomBool(true)),
                }
            },
            TrackEvent::Decrement => {
                match self.stats.get(date) {
                    Some(val) => {
                        if val.0 {
                            self.stats.insert(date, CustomBool(false));
                        } else {
                            self.stats.remove(date);
                        }
                    },
                    None => {},
                }
            },
        }
    }

    pub fn inner_data_ref(&self) -> (r: &InnerData)
        ensures
            r == self.inner_data,
    {
        &self.inner_data
    }
}

/// Law: on a date with no entry, incrementing records true and the following
/// decrement leaves a recorded false — not an absent date — while one more
/// decrement returns the date to absent, restoring the original stats.
pub proof fn lemma_bit_modify_cycle(m: Map<Date, CustomBool>, d: Date)
    requires
        !m.contains_key(d),
    ensures
        spec_bit_step(m, d, TrackEvent::Increment).contains_key(d),
        spec_bit_step(m, d, TrackEvent::Increment)[d].0 == true,
        spec_bit_step(spec_bit_step(m, d, TrackEvent::Increment), d, TrackEvent::Decrement)
            .contains_key(d),
        spec_bit_step(spec_bit_step(m, d, TrackEvent::Increment), d, TrackEvent::Decrement)[d].0
            == false,
        spec_bit_step(
            spec_bit_step(spec_bit_step(m, d, TrackEvent::Increment), d, TrackEvent::Decrement),
            d,
            TrackEvent::Decrement,
        ) == m,
{
    let m1 = spec_bit_step(m, d, TrackEvent::Increment);
    let m2 = spec_bit_step(m1, d, TrackEvent::Decrement);
    let m3 = spec_bit_step(m2, d, TrackEvent::Decrement);
    assert(m3 =~= m);
}

} // verus!
