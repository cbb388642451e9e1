//! The navigable calendar position: month paging, reset, and fine-grained
//! single-step seeking, plus the per-habit copy of it.

use vstd::prelude::*;

use crate::clock;
use crate::date::{Date, spec_date_lt, spec_month_backward, spec_month_forward, spec_pred_day,
    spec_succ_day};
use crate::events::ViewMode;

verus! {

/// A direction a seek or focus move is made in.
#[derive(Clone, Copy, Debug, PartialEq, Eq, Structural)]
pub enum Absolute {
    Left,
    Right,
    Up,
    Down,
    /// No movement at all.
    Stay,
}

/// `d` stepped `n` days forward, staying put at the last representable day.
pub open spec fn spec_succ_n(d: Date, n: nat) -> Date
    decreases n,
{
    if n == 0 {
        d
    } else {
        spec_succ_day(spec_succ_n(d, (n - 1) as nat))
    }
}

/// `d` stepped `n` days back, staying put at the first representable day.
pub open spec fn spec_pred_n(d: Date, n: nat) -> Date
    decreases n,
{
    if n == 0 {
        d
    } else {
        spec_pred_day(spec_pred_n(d, (n - 1) as nat))
    }
}

/// Where a single fine-grained seek from `c` lands: one day left or right,
/// one week up or down; never past `today` going forward, and no move at all
/// when the week ahead would cross it.
pub open spec fn spec_small_seek(c: Date, dir: Absolute, today: Date) -> Date {
    match dir {
        Absolute::Right => if spec_date_lt(c, today) {
            spec_succ_day(c)
        } else {
            c
        },
        Absolute::Left => spec_pred_day(c),
        Absolute::Up => spec_pred_n(c, 7),
        Absolute::Down => {
            let w = spec_succ_n(c, 7);
            if spec_date_lt(today, w) {
                c
            } else {
                w
            }
        },
        Absolute::Stay => c,
    }
}

/// The globally visible calendar date under inspection.
#[derive(Clone, Copy, Debug, PartialEq, Eq, Structural)]
pub struct Cursor(pub Date);

impl Cursor {
    /// A cursor on the current local day.
    pub fn new() -> (r: Cursor)
        ensures
            r.0.spec_valid(),
    {
        Cursor(clock::today())
    }

    /// A cursor on the given day.
    pub fn at(d: Date) -> (r: Cursor)
        ensures
            r.0 == d,
    {
        Cursor(d)
    }

    /// Pages one month ahead, clamping the day-of-month.
    pub fn month_forward(&mut self)
        requires
            old(self).0.spec_valid(),
        ensures
            final(self).0 == spec_month_forward(old(self).0),
            final(self).0.spec_valid(),
    {
        self.0 = self.0.month_forward();
    }

    /// Pages one month back, clamping the day-of-month.
    pub fn month_backward(&mut self)
        requires
            old(self).0.spec_valid(),
        ensures
            final(self).0 == spec_month_backward(old(self).0),
            final(self).0.spec_valid(),
    {
        self.0 = self.0.month_backward();
    }

    /// Returns the cursor to the current local day.
    pub fn reset(&mut self)
        ensures
            final(self).0.spec_valid(),
    {
        self.0 = clock::today();
    }

    /// Returns the cursor to the given day.
    pub fn reset_to(&mut self, d: Date)
        ensures
            final(self).0 == d,
    {
        self.0 = d;
    }

    /// One fine-grained step within the displayed grid, relative to `today`.
    pub fn small_seek(&mut self, dir: Absolute, today: Date)
        requires
            old(self).0.spec_valid(),
            today.spec_valid(),
        ensures
            final(self).0 == spec_small_seek(old(self).0, dir, today),
            final(self).0.spec_valid(),
    {
        match dir {
            Absolute::Right => {
                if self.0.lt(today) {
                    self.0 = self.0.succ_day();
                }
            },
            Absolute::Left => {
                self.0 = self.0.pred_day();
            },
            Absolute::Up => {
                let mut i: usize = 0;
                let mut c = self.0;
                while i < 7
                    invariant
                        i <= 7,
                        c == spec_pred_n(old(self).0, i as nat),
                        c.spec_valid(),
                    decreases 7 - i,
                {
                    c = c.pred_day();
                    i = i + 1;
                }
                self.0 = c;
            },
            Absolute::Down => {
                let mut i: usize = 0;
                let mut c = self.0;
                while i < 7
                    invariant
                        i <= 7,
                        c == spec_succ_n(old(self).0, i as nat),
                        c.spec_valid(),
                    decreases 7 - i,
                {
                    c = c.succ_day();
                    i = i + 1;
                }
                if !today.lt(c) {
                    self.0 = c;
                }
            },
            Absolute::Stay => {},
        }
    }
}

/// Per-habit view state: an independent cursor copy and a view mode. Not
/// persisted; rebuilt fresh when a collection is loaded.
#[derive(Clone, Copy, Debug, PartialEq, Eq, Structural)]
pub struct InnerData {
    pub cursor: Cursor,
    pub view_mode: ViewMode,
}

impl InnerData {
    /// Fresh view state on the current local day, in day mode.
    pub fn fresh() -> (r: InnerData)
        ensures
            r.cursor.0.spec_valid(),
            r.view_mode == ViewMode::Day,
    {
        InnerData { cursor: Cursor::new(), view_mode: ViewMode::Day }
    }

    pub fn view_mode(&self) -> (r: ViewMode)
        ensures
            r == self.view_mode,
    {
        self.view_mode
    }

    pub fn set_view_mode(&mut self, mode: ViewMode)
        ensures
            final(self).view_mode == mode,
            final(self).cursor == old(self).cursor,
    {
        self.view_mode = mode;
    }

    /// One fine-grained cursor step, as `Cursor::small_seek`.
    pub fn move_cursor(&mut self, dir: Absolute, today: Date)
        requires
            old(self).cursor.0.spec_valid(),
            today.spec_valid(),
        ensures
            final(self).cursor.0 == spec_small_seek(old(self).cursor.0, dir, today),
            final(self).cursor.0.spec_valid(),
            final(self).view_mode == old(self).view_mode,
    {
        self.cursor.small_seek(dir, today);
    }
}

} // verus!
