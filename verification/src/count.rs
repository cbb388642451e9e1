//! The counted habit kind: a non-negative tally per date against an integer
//! goal.

use vstd::prelude::*;

use crate::command::GoalKind;
use crate::cursor::InnerData;
use crate::date::Date;
use crate::datemap::DateMap;
use crate::events::TrackEvent;

verus! {

/// How one tracking event rewrites a counted habit's stats: incrementing
/// starts an absent date at 1 and otherwise adds 1; decrementing subtracts 1,
/// removes the entry entirely when that would reach 0 (counts are sparse:
/// a zero is absent, not stored), and leaves an absent date untouched.
pub open spec fn spec_count_step(m: Map<Date, u32>, d: Date, e: TrackEvent) -> Map<Date, u32> {
    match e {
        TrackEvent::Increment => if m.contains_key(d) {
            m.insert(d, (m[d] + 1) as u32)
        } else {
            m.insert(d, 1u32)
        },
        TrackEvent::Decrement => if m.contains_key(d) {
            if m[d] > 1 {
                m.insert(d, (m[d] - 1) as u32)
            } else {
                m.remove(d)
            }
        } else {
            m
        },
    }
}

/// `n` tracking events of the same kind applied in sequence.
pub open spec fn spec_count_step_n(m: Map<Date, u32>, d: Date, e: TrackEvent, n: nat) -> Map<
    Date,
    u32,
>
    decreases n,
{
    if n == 0 {
        m
    } else {
        spec_count_step(spec_count_step_n(m, d, e, (n - 1) as nat), d, e)
    }
}

/// A habit whose daily record is a non-negative count.
pub struct Count {
    pub name: String,
    pub stats: DateMap<u32>,
    pub goal: u32,
    /// Marks the habit as externally auto-incrementable rather than
    /// user-entered.
    pub auto: bool,
    pub inner_data: InnerData,
}

impl Count {
    pub open spec fn wf(self) -> bool {
        self.stats.wf() && self.inner_data.cursor.0.spec_valid()
    }

    /// True iff the count recorded for `d` meets or exceeds the goal.
    pub open spec fn spec_reached(self, d: Date) -> bool {
        self.stats@.contains_key(d) && self.stats@[d] >= self.goal
    }

    /// How much is still outstanding on `d`: 0 once reached, otherwise the
    /// goal less anything recorded.
    pub open spec fn spec_remaining(self, d: Date) -> u32 {
        if self.spec_reached(d) {
            0
        } else if self.stats@.contains_key(d) {
            (self.goal - self.stats@[d]) as u32
        } else {
            self.goal
        }
    }

    pub fn new(name: &str, goal: u32) -> (r: Count)
        ensures
            r.wf(),
            r.name@ == name@,
            r.stats@ == Map::<Date, u32>::empty(),
            r.goal == goal,
            r.auto == false,
            r.inner_data.view_mode == crate::events::ViewMode::Day,
    {
        Count {
            name: name.to_owned(),
            stats: DateMap::new(),
            goal,
            auto: false,
            inner_data: InnerData::fresh(),
        }
    }

    pub fn name(&self) -> (r: String)
        ensures
            r@ == self.name@,
    {
        self.name.clone()
    }

    pub fn kind(&self) -> (r: GoalKind)
        ensures
            r == GoalKind::Count(self.goal),
    {
        GoalKind::Count(self.goal)
    }

    pub fn get_by_date(&self, date: Date) -> (r: Option<u32>)
        requires
            self.wf(),
        ensures
            match r {
                Some(v) => self.stats@.contains_key(date) && self.stats@[date] == v,
                None => !self.stats@.contains_key(date),
            },
    {
        self.stats.get(date)
    }

    pub fn get_dates(&self) -> (r: Vec<Date>)
        requires
            self.wf(),
        ensures
            forall|i: int|
                0 <= i < r@.len() ==> (#[trigger] r@[i]).spec_valid()
                    && self.stats@.contains_key(r@[i]),
            forall|i: int, j: int| 0 <= i < j < r@.len() ==> r@[i] != r@[j],
            forall|d: Date| self.stats@.contains_key(d) ==> r@.contains(d),
    {
        self.stats.dates()
    }

    /// Sets or overwrites the count recorded for `date`.
    pub fn insert_entry(&mut self, date: Date, val: u32)
        requires
            old(self).wf(),
            date.spec_valid(),
        ensures
            final(self).wf(),
            final(self).stats@ == old(self).stats@.insert(date, val),
            final(self).name == old(self).name,
            final(self).goal == old(self).goal,
            final(self).auto == old(self).auto,
            final(self).inner_data == old(self).inner_data,
    {
        self.stats.insert(date, val);
    }

    pub fn reached_goal(&self, date: Date) -> (r: bool)
        requires
            self.wf(),
        ensures
            r == self.spec_reached(date),
    {
        match self.stats.get(date) {
            Some(val) => val >= self.goal,
            None => false,
        }
    }

    pub fn remaining(&self, date: Date) -> (r: u32)
        requires
            self.wf(),
        ensures
            r == self.spec_remaining(date),
    {
        if self.reached_goal(date) {
            0
        } else {
            match self.stats.get(date) {
                Some(val) => self.goal - val,
                None => self.goal,
            }
        }
    }

    pub fn goal(&self) -> (r: u32)
        ensures
            r == self.goal,
    {
        self.goal
    }

    /// Applies one tracking event to the count for `date`.
    pub fn modify(&mut self, date: Date, event: TrackEvent)
        requires
            old(self).wf(),
            date.spec_valid(),
            event == TrackEvent::Increment && old(self).stats@.contains_key(date) ==> old(
                self,
            ).stats@[date] < u32::MAX,
        ensures
            final(self).wf(),
            final(self).stats@ == spec_count_step(old(self).stats@, date, event),
            final(self).name == old(self).name,
            final(self).goal == old(self).goal,
            final(self).auto == old(self).auto,
            final(self).inner_data == old(self).inner_data,
    {
        match event {
            TrackEvent::Increment => {
                match self.stats.get(date) {
                    Some(val) => self.stats.insert(date, val + 1),
                    None => self.stats.insert(date, 1),
                }
            },
            TrackEvent::Decrement => {
                match self.stats.get(date) {
                    Some(val) => {
                        if val > 1 {
                            self.stats.insert(date, val - 1);
                        } else {
                            self.stats.remove(date);
                        }
                    },
                    None => {},
                }
            },
        }
    }

    pub fn inner_data_ref(&self) -> (r: &InnerData)
        ensures
            r == self.inner_data,
    {
        &self.inner_data
    }
}

proof fn lemma_count_increments(m: Map<Date, u32>, d: Date, n: nat)
    requires
        !m.contains_key(d),
        1 <= n < u32::MAX,
    ensures
        spec_count_step_n(m, d, TrackEvent::Increment, n) == m.insert(d, n as u32),
    decreases n,
{
    if n == 1 {
        assert(spec_count_step_n(m, d, TrackEvent::Increment, 0) == m);
        assert(spec_count_step_n(m, d, TrackEvent::Increment, 1) == spec_count_step(
            m,
            d,
            TrackEvent::Increment,
        ));
    } else {
        lemma_count_increments(m, d, (n - 1) as nat);
        let prev = m.insert(d, (n - 1) as u32);
        assert(spec_count_step(prev, d, TrackEvent::Increment) =~= m.insert(d, n as u32));
    }
}

proof fn lemma_count_decrements(m: Map<Date, u32>, d: Date, k: nat, j: nat)
    requires
        !m.contains_key(d),
        1 <= k < u32::MAX,
        j < k,
    ensures
        spec_count_step_n(m.insert(d, k as u32), d, TrackEvent::Decrement, j) == m.insert(
            d,
            (k - j) as u32,
        ),
    decreases j,
{
    if j == 0 {
    } else {
        lemma_count_decrements(m, d, k, (j - 1) as nat);
        let prev = m.insert(d, (k - (j - 1)) as u32);
        assert(prev[d] == (k - j + 1) as u32);
        assert(spec_count_step(prev, d, TrackEvent::Decrement) =~= m.insert(d, (k - j) as u32));
    }
}

/// Law: on a date with no entry, `n` increments followed by `n` decrements
/// return the date to absent, restoring the original stats exactly.
pub proof fn lemma_count_round_trip(m: Map<Date, u32>, d: Date, n: nat)
    requires
        !m.contains_key(d),
        1 <= n < u32::MAX,
    ensures
        spec_count_step_n(
            spec_count_step_n(m, d, TrackEvent::Increment, n),
            d,
            TrackEvent::Decrement,
            n,
        ) == m,
{
    lemma_count_increments(m, d, n);
    lemma_count_decrements(m, d, n, (n - 1) as nat);
    let before_last = m.insert(d, 1u32);
    assert(spec_count_step_n(m.insert(d, n as u32), d, TrackEvent::Decrement, n)
        == spec_count_step(before_last, d, TrackEvent::Decrement));
    assert(before_last[d] == 1u32);
    assert(before_last.remove(d) =~= m);
}

} // verus!
